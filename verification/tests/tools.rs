use codexify::apply_patch::ApplyPatchTool;
use codexify::exec_command::ExecCommandTool;
use codexify::shell_command::ShellCommandTool;
use codexify::tools::{
    codexify_tools, error_response, get_tool, tool_for_name, unknown_tool_message, CodexifyServer,
    ToolKind, APPLY_PATCH_TOOL_NAME, EXEC_COMMAND_TOOL_NAME, SHELL_COMMAND_TOOL_NAME,
    VIEW_IMAGE_TOOL_NAME,
};
use codexify::view_image::ViewImageTool;

#[test]
fn tool_definition_uses_rmcp_tool_model() {
    let tool = ExecCommandTool.tool();
    assert_eq!(tool.name, EXEC_COMMAND_TOOL_NAME);
    assert_eq!(tool.kind, ToolKind::ExecCommand);
    assert_eq!(ShellCommandTool.tool().name, SHELL_COMMAND_TOOL_NAME);
    assert_eq!(ApplyPatchTool.tool().name, APPLY_PATCH_TOOL_NAME);
    assert_eq!(ViewImageTool.tool().name, VIEW_IMAGE_TOOL_NAME);
    assert!(ViewImageTool.tool().hints.read_only);
    assert!(!ViewImageTool.tool().hints.destructive);
    assert!(ExecCommandTool.tool().hints.destructive);
}

#[test]
fn server_lists_four_tools_in_order() {
    let names: Vec<String> = codexify_tools().into_iter().map(|t| t.name).collect();
    assert_eq!(names, vec!["exec_command", "shell_command", "apply_patch", "view_image"]);
    let _server = CodexifyServer::new();
}

#[test]
fn listed_tools_are_callable() {
    for t in codexify_tools() {
        assert_eq!(tool_for_name(&t.name), Some(t.kind));
        assert_eq!(get_tool(&t.name).map(|g| g.kind), Some(t.kind));
    }
    assert_eq!(tool_for_name("exec"), None);
    assert!(get_tool("exec").is_none());
    assert_eq!(unknown_tool_message("exec"), "unknown tool `exec`");
    let r = error_response("bad".to_string());
    assert!(r.is_error);
    assert_eq!(r.text, "bad");
}
