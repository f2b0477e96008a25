use sx3d::{get_file_type, FileType, Sx3dError};

#[test]
fn stl_and_obj_files_are_recognised() {
    assert_eq!(get_file_type("examples/cube_ascii.stl".to_string()), Ok(FileType::Stl));
    assert_eq!(get_file_type("examples/cube.obj".to_string()), Ok(FileType::Obj));
    assert_eq!(get_file_type("a.b.obj".to_string()), Ok(FileType::Obj));
    assert_eq!(get_file_type("stl".to_string()), Ok(FileType::Stl));
}

#[test]
fn other_extensions_are_refused() {
    assert_eq!(
        get_file_type("model.ply".to_string()),
        Err("Error: Unsupported File Type: ply".to_string())
    );
    assert_eq!(
        get_file_type("model.STL".to_string()),
        Err("Error: Unsupported File Type: STL".to_string())
    );
    assert_eq!(
        get_file_type("model.".to_string()),
        Err("Error: Unsupported File Type: ".to_string())
    );
    assert_eq!(
        get_file_type("model".to_string()),
        Err("Error: Unsupported File Type: model".to_string())
    );
}

#[test]
fn error_message_is_copied() {
    let error = Sx3dError { message: "bad mesh".to_string() };
    assert_eq!(error.get_error_message(), "bad mesh");
}
