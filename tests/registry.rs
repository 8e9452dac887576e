use codex_bridge::registry::{
    extract_imports, is_simple_ts_identifier, snake_to_camel, to_ascii_uppercase, write_command_function,
    CommandDescriptor, CommandTypeMetadata,
};

#[test]
fn camel_case_names() {
    assert_eq!(snake_to_camel("list_recent_workspaces"), "listRecentWorkspaces");
    assert_eq!(snake_to_camel("initialize"), "initialize");
    assert_eq!(snake_to_camel(""), "");
    assert_eq!(snake_to_camel("_leading"), "_leading");
    assert_eq!(snake_to_camel("a__b"), "aB");
    assert_eq!(snake_to_camel("trailing_"), "trailing");
    assert_eq!(snake_to_camel("x_9y"), "x9y");
}

#[test]
fn ascii_uppercase() {
    assert_eq!(to_ascii_uppercase('a'), 'A');
    assert_eq!(to_ascii_uppercase('z'), 'Z');
    assert_eq!(to_ascii_uppercase('Q'), 'Q');
    assert_eq!(to_ascii_uppercase('é'), 'é');
}

#[test]
fn simple_identifiers() {
    assert!(is_simple_ts_identifier("ListConversationsResponse"));
    assert!(is_simple_ts_identifier("Array<string>"));
    assert!(is_simple_ts_identifier("Record<string, number>") == false);
    assert!(!is_simple_ts_identifier(""));
    assert!(!is_simple_ts_identifier("string | null"));
    assert!(!is_simple_ts_identifier("A&B"));
    assert!(!is_simple_ts_identifier("Option<String>"));
    assert!(is_simple_ts_identifier("Optional<T>"));
}

#[test]
fn imports_are_sorted_and_unique() {
    assert_eq!(
        extract_imports("conversations::ListConversationsResponse"),
        vec!["ListConversationsResponse".to_string()]
    );
    assert_eq!(
        extract_imports("Vec<Option<Zeta>>, HashMap<Alpha, Zeta>"),
        vec!["Alpha".to_string(), "Zeta".to_string()]
    );
    assert_eq!(extract_imports("Vec<String>"), Vec::<String>::new());
    assert_eq!(extract_imports("u32"), Vec::<String>::new());
    assert_eq!(
        extract_imports("crate::workspace_manager::WorkspaceComposerDefaults"),
        vec!["WorkspaceComposerDefaults".to_string()]
    );
    assert_eq!(extract_imports("Émile_x"), vec!["Émile_x".to_string()]);
}

#[test]
fn metadata_annotations() {
    let unit = CommandTypeMetadata::from_parts("null".to_string(), "null".to_string(), "()");
    assert!(unit.is_unit());
    assert_eq!(unit.ts_annotation(), "void");
    assert!(unit.imports().is_empty());

    let named = CommandTypeMetadata::from_parts(
        "{ workspacePath: string }".to_string(),
        "WorkspacePathParams".to_string(),
        "workspace::WorkspacePathParams",
    );
    assert!(!named.is_unit());
    assert_eq!(named.ts_annotation(), "WorkspacePathParams");
    assert_eq!(named.imports(), &["WorkspacePathParams".to_string()]);

    let inline = CommandTypeMetadata::from_parts(
        "string | null".to_string(),
        "Option<String>".to_string(),
        "Option<String>",
    );
    assert_eq!(inline.ts_annotation(), "string | null");
    assert!(inline.imports().is_empty());
}

#[test]
fn descriptor_names() {
    let params = CommandTypeMetadata::from_parts("null".to_string(), "null".to_string(), "()");
    let result =
        CommandTypeMetadata::from_parts("Array<string>".to_string(), "Array<string>".to_string(), "Vec<String>");
    let d = CommandDescriptor::from_parts("workspace::list_recent_workspaces", params.clone(), result.clone());
    assert_eq!(d.command_name, "list_recent_workspaces");
    assert_eq!(d.property_name, "listRecentWorkspaces");
    assert!(d.params.is_unit());
    assert_eq!(d.result.ts_annotation(), "Array<string>");
    let bare = CommandDescriptor::from_parts("get_auth_state", params.clone(), result.clone());
    assert_eq!(bare.command_name, "get_auth_state");
    assert_eq!(bare.property_name, "getAuthState");
    let spaced = CommandDescriptor::from_parts("workspace:: open_workspace ", params.clone(), result.clone());
    assert_eq!(spaced.command_name, "open_workspace");
    assert_eq!(spaced.property_name, "openWorkspace");
    let empty_tail = CommandDescriptor::from_parts("auth::", params, result);
    assert_eq!(empty_tail.command_name, "auth::");
}

#[test]
fn client_function_text() {
    let unit = CommandTypeMetadata::from_parts("null".to_string(), "null".to_string(), "()");
    let list =
        CommandTypeMetadata::from_parts("Array<string>".to_string(), "Array<string>".to_string(), "Vec<String>");
    let params = CommandTypeMetadata::from_parts(
        "{ workspacePath: string }".to_string(),
        "WorkspacePathParams".to_string(),
        "workspace::WorkspacePathParams",
    );
    let text = CommandTypeMetadata::from_parts("string".to_string(), "string".to_string(), "String");

    let mut buffer = String::from("// head\n");
    let recent = CommandDescriptor::from_parts("workspace::list_recent_workspaces", unit, list);
    write_command_function(&mut buffer, &recent, 4);
    assert_eq!(
        buffer,
        "// head\n    export async function listRecentWorkspaces(): Promise<Array<string>> {\n      return await invoke<Array<string>>(\"list_recent_workspaces\");\n    }\n\n"
    );

    let mut buffer = String::new();
    let open = CommandDescriptor::from_parts("workspace::open_workspace", params, text);
    write_command_function(&mut buffer, &open, 2);
    assert_eq!(
        buffer,
        "  export async function openWorkspace(params: WorkspacePathParams): Promise<string> {\n    return await invoke<string>(\"open_workspace\", { params });\n  }\n\n"
    );
}
