use magiebleue::shaders::{
    build_script, step_result, BuildAction, BuildOutcome, ProgramError, ProgramPlan, Shader,
    ShaderProgram, ShaderType,
};

#[test]
fn plain_plan_builds_vertex_and_fragment_only() {
    let script = build_script(ProgramPlan { use_tesc: false, use_tese: false, use_geom: false });
    assert_eq!(
        script,
        vec![
            BuildAction::CreateProgram,
            BuildAction::CompileShader(ShaderType::Vertex),
            BuildAction::CompileShader(ShaderType::Fragment),
            BuildAction::AttachShader(ShaderType::Vertex),
            BuildAction::AttachShader(ShaderType::Fragment),
            BuildAction::LinkProgram,
        ]
    );
}

#[test]
fn full_plan_orders_optional_stages() {
    let script = build_script(ProgramPlan { use_tesc: true, use_tese: true, use_geom: true });
    assert_eq!(
        script,
        vec![
            BuildAction::CreateProgram,
            BuildAction::CompileShader(ShaderType::Vertex),
            BuildAction::CompileShader(ShaderType::Fragment),
            BuildAction::CompileShader(ShaderType::TessellationControl),
            BuildAction::AttachShader(ShaderType::TessellationControl),
            BuildAction::CompileShader(ShaderType::TessellationEvaluation),
            BuildAction::AttachShader(ShaderType::TessellationEvaluation),
            BuildAction::CompileShader(ShaderType::Geometry),
            BuildAction::AttachShader(ShaderType::Geometry),
            BuildAction::AttachShader(ShaderType::Vertex),
            BuildAction::AttachShader(ShaderType::Fragment),
            BuildAction::LinkProgram,
        ]
    );
}

#[test]
fn geometry_only_plan_keeps_its_place() {
    let script = build_script(ProgramPlan { use_tesc: false, use_tese: false, use_geom: true });
    assert_eq!(script.len(), 8);
    assert_eq!(script[3], BuildAction::CompileShader(ShaderType::Geometry));
    assert_eq!(script[4], BuildAction::AttachShader(ShaderType::Geometry));
}

#[test]
fn successful_steps_continue_the_build() {
    for action in [
        BuildAction::CreateProgram,
        BuildAction::CompileShader(ShaderType::Vertex),
        BuildAction::AttachShader(ShaderType::Vertex),
        BuildAction::LinkProgram,
    ] {
        assert_eq!(step_result(action, BuildOutcome::Success), Ok(()));
    }
}

#[test]
fn failed_creation_is_a_program_allocation_error() {
    assert_eq!(
        step_result(BuildAction::CreateProgram, BuildOutcome::AllocationFailure),
        Err(ProgramError::ProgramAllocation)
    );
}

#[test]
fn failed_shader_creation_names_its_stage() {
    assert_eq!(
        step_result(
            BuildAction::CompileShader(ShaderType::Fragment),
            BuildOutcome::AllocationFailure
        ),
        Err(ProgramError::ShaderAllocation { stage: ShaderType::Fragment })
    );
}

#[test]
fn failed_compilation_carries_stage_and_log() {
    assert_eq!(
        step_result(
            BuildAction::CompileShader(ShaderType::TessellationEvaluation),
            BuildOutcome::CompileFailure { log: "syntax error".to_string() }
        ),
        Err(ProgramError::Compile {
            stage: ShaderType::TessellationEvaluation,
            log: "syntax error".to_string()
        })
    );
}

#[test]
fn failed_link_carries_the_log() {
    assert_eq!(
        step_result(
            BuildAction::LinkProgram,
            BuildOutcome::LinkFailure { log: "undefined entry".to_string() }
        ),
        Err(ProgramError::Link { log: "undefined entry".to_string() })
    );
}

#[test]
fn shader_handles_refuse_the_zero_name() {
    assert!(Shader::from_raw(0).is_none());
    assert_eq!(Shader::from_raw(7).map(|s| s.0), Some(7));
    assert!(ShaderProgram::from_raw(0).is_none());
    assert_eq!(ShaderProgram::from_raw(11).map(|p| p.0), Some(11));
}
