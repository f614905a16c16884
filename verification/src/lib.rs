pub mod functions;
pub mod gl_objects;
pub mod shaders;
pub mod textures;
pub mod wavefront_parser;

use vstd::prelude::*;

verus! {

/// The set of keys a window's event loop currently holds down.  Keys
/// are carried as the windowing library's integer key codes.  A press
/// event inserts a code, a release event removes it, and the view is
/// the set of codes held.
pub struct KeyTracker {
    pub pressed: Vec<i32>,
}

impl View for KeyTracker {
    type V = Set<i32>;

    open spec fn view(&self) -> Set<i32> {
        self.pressed@.to_set()
    }
}

impl KeyTracker {
    /// No key code occurs twice, so releasing a code removes it
    /// entirely.
    pub open spec fn wf(self) -> bool {
        forall|a: int, b: int|
            0 <= a < b < self.pressed@.len() ==> self.pressed@[a] != self.pressed@[b]
    }

    /// The empty set: no key is held.
    pub fn new() -> (r: KeyTracker)
        ensures
            r.wf(),
            r@ == Set::<i32>::empty(),
    {
        let r = KeyTracker { pressed: Vec::new() };
        proof {
            assert(r@ =~= Set::<i32>::empty());
        }
        r
    }

    fn find_key(&self, key: i32) -> (r: Option<usize>)
        ensures
            match r {
                Some(i) => i < self.pressed@.len() && self.pressed@[i as int] == key,
                None => !self.pressed@.contains(key),
            },
    {
        let n = self.pressed.len();
        let mut idx: usize = 0;
        while idx < n
            invariant
                n == self.pressed@.len(),
                idx <= n,
                forall|m: int| 0 <= m < idx ==> self.pressed@[m] != key,
            decreases n - idx,
        {
            if self.pressed[idx] == key {
                return Some(idx);
            }
            idx = idx + 1;
        }
        None
    }

    /// Whether this key is held.
    pub fn is_pressed(&self, key: i32) -> (r: bool)
        ensures
            r == self@.contains(key),
    {
        match self.find_key(key) {
            Some(_) => true,
            None => false,
        }
    }

    /// Records a press event: the key is now held.
    pub fn press(&mut self, key: i32)
        requires
            old(self).wf(),
        ensures
            final(self).wf(),
            final(self)@ == old(self)@.insert(key),
    {
        match self.find_key(key) {
            Some(_) => {
                proof {
                    assert(self@.insert(key) =~= self@);
                }
            },
            None => {
                let ghost olds = self.pressed@;
                self.pressed.push(key);
                proof {
                    broadcast use vstd::seq_lib::lemma_seq_contains_after_push;

                    assert(self.pressed@.to_set() =~= olds.to_set().insert(key));
                    assert forall|a: int, b: int|
                        0 <= a < b < self.pressed@.len() implies self.pressed@[a]
                        != self.pressed@[b] by {
                        if b == olds.len() {
                            assert(self.pressed@[b] == key);
                            assert(self.pressed@[a] == olds[a]);
                            if olds[a] == key {
                                assert(olds.contains(key));
                            }
                        }
                    }
                }
            },
        }
    }

    /// Records a release event: the key is no longer held.
    pub fn release(&mut self, key: i32)
        requires
            old(self).wf(),
        ensures
            final(self).wf(),
            final(self)@ == old(self)@.remove(key),
    {
        match self.find_key(key) {
            None => {
                proof {
                    assert(self@.remove(key) =~= self@);
                }
            },
            Some(i) => {
                let ghost olds = self.pressed@;
                self.pressed.remove(i);
                proof {
                    let news = self.pressed@;
                    assert forall|x: i32| news.contains(x) implies olds.contains(x) && x
                        != key by {
                        let m = choose|m: int| 0 <= m < news.len() && news[m] == x;
                        if m < i {
                            assert(olds[m] == x);
                            if x == key {
                                assert(olds[m] == olds[i as int]);
                            }
                        } else {
                            assert(olds[m + 1] == x);
                            if x == key {
                                assert(olds[m + 1] == olds[i as int]);
                            }
                        }
                    }
                    assert forall|x: i32| olds.contains(x) && x != key implies news.contains(
                        x,
                    ) by {
                        let m = choose|m: int| 0 <= m < olds.len() && olds[m] == x;
                        if m < i {
                            assert(news[m] == x);
                        } else {
                            assert(m != i);
                            assert(news[m - 1] == x);
                        }
                    }
                    assert(news.to_set() =~= olds.to_set().remove(key));
                    assert forall|a: int, b: int|
                        0 <= a < b < news.len() implies news[a] != news[b] by {
                        let a2: int = if a < i { a } else { a + 1 };
                        let b2: int = if b < i { b } else { b + 1 };
                        assert(news[a] == olds[a2]);
                        assert(news[b] == olds[b2]);
                    }
                }
            },
        }
    }
}

} // verus!

