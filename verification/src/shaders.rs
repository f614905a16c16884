use vstd::prelude::*;

verus! {

/// A linked shader program handle.  A handle of zero means "no
/// object"; a well-formed `ShaderProgram` holds a nonzero handle.
pub struct ShaderProgram(pub u32);

impl ShaderProgram {
    pub open spec fn wf(self) -> bool {
        self.0 != 0
    }

    /// Wraps a raw handle freshly created by the driver; a zero handle
    /// signals an allocation failure and yields `None`.
    pub fn from_raw(id: u32) -> (r: Option<ShaderProgram>)
        ensures
            r is Some <==> id != 0,
            r is Some ==> (r->0).0 == id && (r->0).wf(),
    {
        if id != 0 {
            Some(ShaderProgram(id))
        } else {
            None
        }
    }
}

/// A single shader stage handle, wrapped the same way.
pub struct Shader(pub u32);

impl Shader {
    pub open spec fn wf(self) -> bool {
        self.0 != 0
    }

    /// Wraps a raw handle freshly created by the driver; a zero handle
    /// signals an allocation failure and yields `None`.
    pub fn from_raw(id: u32) -> (r: Option<Shader>)
        ensures
            r is Some <==> id != 0,
            r is Some ==> (r->0).0 == id && (r->0).wf(),
    {
        if id != 0 {
            Some(Shader(id))
        } else {
            None
        }
    }
}

/// The shader stages a program can hold.
#[derive(Debug, Clone, Copy, PartialEq, Eq, Structural)]
pub enum ShaderType {
    Vertex,
    Fragment,
    Geometry,
    TessellationControl,
    TessellationEvaluation,
}

/// Which optional stages a program build uses; vertex and fragment
/// are always present.
#[derive(Debug, Clone, Copy, PartialEq, Eq, Structural)]
pub struct ProgramPlan {
    pub use_tesc: bool,
    pub use_tese: bool,
    pub use_geom: bool,
}

/// One step of a program build, for a driver loop to carry out.
#[derive(Debug, Clone, Copy, PartialEq, Eq, Structural)]
pub enum BuildAction {
    /// Create the program object.
    CreateProgram,
    /// Compile the source of this stage into a shader object.
    CompileShader(ShaderType),
    /// Attach this stage's compiled shader to the program.
    AttachShader(ShaderType),
    /// Link the attached shaders and check the link status.
    LinkProgram,
}

/// The build order a plan demands: create the program, compile the
/// vertex and fragment stages, compile and attach each optional stage
/// in tessellation-control, tessellation-evaluation, geometry order,
/// attach vertex and fragment, then link.
pub open spec fn spec_build_script(plan: ProgramPlan) -> Seq<BuildAction> {
    seq![
        BuildAction::CreateProgram,
        BuildAction::CompileShader(ShaderType::Vertex),
        BuildAction::CompileShader(ShaderType::Fragment),
    ] + (if plan.use_tesc {
        seq![
            BuildAction::CompileShader(ShaderType::TessellationControl),
            BuildAction::AttachShader(ShaderType::TessellationControl),
        ]
    } else {
        seq![]
    }) + (if plan.use_tese {
        seq![
            BuildAction::CompileShader(ShaderType::TessellationEvaluation),
            BuildAction::AttachShader(ShaderType::TessellationEvaluation),
        ]
    } else {
        seq![]
    }) + (if plan.use_geom {
        seq![
            BuildAction::CompileShader(ShaderType::Geometry),
            BuildAction::AttachShader(ShaderType::Geometry),
        ]
    } else {
        seq![]
    }) + seq![
        BuildAction::AttachShader(ShaderType::Vertex),
        BuildAction::AttachShader(ShaderType::Fragment),
        BuildAction::LinkProgram,
    ]
}

/// Lists the steps that build a program for this plan, in order.
pub fn build_script(plan: ProgramPlan) -> (script: Vec<BuildAction>)
    ensures
        script@ == spec_build_script(plan),
{
    let mut script: Vec<BuildAction> = Vec::new();
    script.push(BuildAction::CreateProgram);
    script.push(BuildAction::CompileShader(ShaderType::Vertex));
    script.push(BuildAction::CompileShader(ShaderType::Fragment));
    if plan.use_tesc {
        script.push(BuildAction::CompileShader(ShaderType::TessellationControl));
        script.push(BuildAction::AttachShader(ShaderType::TessellationControl));
    }
    if plan.use_tese {
        script.push(BuildAction::CompileShader(ShaderType::TessellationEvaluation));
        script.push(BuildAction::AttachShader(ShaderType::TessellationEvaluation));
    }
    if plan.use_geom {
        script.push(BuildAction::CompileShader(ShaderType::Geometry));
        script.push(BuildAction::AttachShader(ShaderType::Geometry));
    }
    script.push(BuildAction::AttachShader(ShaderType::Vertex));
    script.push(BuildAction::AttachShader(ShaderType::Fragment));
    script.push(BuildAction::LinkProgram);
    proof {
        assert(script@ =~= spec_build_script(plan));
    }
    script
}

/// Why a program build failed.
#[derive(Debug, PartialEq, Eq)]
pub enum ProgramError {
    /// The driver handed back no program object.
    ProgramAllocation,
    /// The driver handed back no shader object for this stage.
    ShaderAllocation { stage: ShaderType },
    /// This stage's source did not compile; the driver's log follows.
    Compile { stage: ShaderType, log: String },
    /// The program did not link; the driver's log follows.
    Link { log: String },
}

/// What a driver loop reports back for one build step.
#[derive(Debug, PartialEq, Eq)]
pub enum BuildOutcome {
    Success,
    /// The driver handed back no object (create or compile steps).
    AllocationFailure,
    /// Compilation failed, with the shader's info log.
    CompileFailure { log: String },
    /// Linking failed, with the program's info log.
    LinkFailure { log: String },
}

/// Which outcomes a step can report: allocation can fail while
/// creating objects, compilation while compiling, linking while
/// linking; attaching always succeeds.
pub open spec fn outcome_fits(action: BuildAction, outcome: BuildOutcome) -> bool {
    match outcome {
        BuildOutcome::Success => true,
        BuildOutcome::AllocationFailure => action is CreateProgram || action is CompileShader,
        BuildOutcome::CompileFailure { .. } => action is CompileShader,
        BuildOutcome::LinkFailure { .. } => action is LinkProgram,
    }
}

/// Decides how the build goes on after one step: a failed step stops
/// the build with the error that names its stage and carries the
/// driver's log.
pub fn step_result(action: BuildAction, outcome: BuildOutcome) -> (r: Result<(), ProgramError>)
    requires
        outcome_fits(action, outcome),
    ensures
        (r is Ok <==> outcome is Success),
        action is CreateProgram && outcome is AllocationFailure ==> r->Err_0
            is ProgramAllocation,
        action matches BuildAction::CompileShader(st) ==> outcome is AllocationFailure
            ==> (r->Err_0 matches ProgramError::ShaderAllocation { stage } && stage == st),
        action matches BuildAction::CompileShader(st) ==> (outcome matches
            BuildOutcome::CompileFailure { log } ==> (r->Err_0
            matches ProgramError::Compile { stage, log: l } && stage == st && l == log)),
        outcome matches BuildOutcome::LinkFailure { log } ==> (r->Err_0
            matches ProgramError::Link { log: l } && l == log),
{
    match outcome {
        BuildOutcome::Success => Ok(()),
        BuildOutcome::AllocationFailure => match action {
            BuildAction::CompileShader(stage) => Err(ProgramError::ShaderAllocation { stage }),
            _ => Err(ProgramError::ProgramAllocation),
        },
        BuildOutcome::CompileFailure { log } => match action {
            BuildAction::CompileShader(stage) => Err(ProgramError::Compile { stage, log }),
            _ => Err(ProgramError::ProgramAllocation),
        },
        BuildOutcome::LinkFailure { log } => Err(ProgramError::Link { log }),
    }
}

} // verus!
