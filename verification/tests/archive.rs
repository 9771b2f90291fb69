use fastpatch::commands::archive::{extract_zip, first_component_of, has_nested_of, last_name_of, read_zip, relative_to_of};
use std::io::Write;

fn chars(s: &str) -> Vec<char> {
    s.chars().collect()
}

fn text(v: &[char]) -> String {
    v.iter().collect()
}

fn zip_of(entries: &[(&str, Option<&[u8]>)]) -> Vec<u8> {
    let mut w = zip::ZipWriter::new(std::io::Cursor::new(Vec::new()));
    let options = zip::write::SimpleFileOptions::default().compression_method(zip::CompressionMethod::Stored);
    for (name, content) in entries {
        match content {
            Some(c) => {
                w.start_file(*name, options).unwrap();
                w.write_all(c).unwrap();
            }
            None => {
                w.add_directory(*name, options).unwrap();
            }
        }
    }
    w.finish().unwrap().into_inner()
}

fn release_zip() -> Vec<u8> {
    zip_of(&[
        ("zapret-1.0/bin/", None),
        ("zapret-1.0/bin/winws.exe", Some(b"exe")),
        ("zapret-1.0/general.bat", Some(b"bat")),
        ("zapret-1.0/lists/list-general-user.txt", Some(b"mine")),
        ("zapret-1.0/readme.md", Some(b"doc")),
    ])
}

#[test]
fn archive_entries_are_read_in_order() {
    let entries = read_zip(&release_zip()).unwrap();
    assert_eq!(entries.len(), 5);
    let first = entries[0].as_ref().unwrap();
    assert_eq!(first.name.as_deref(), Some("zapret-1.0/bin/"));
    assert!(first.is_dir);
    let exe = entries[1].as_ref().unwrap();
    assert_eq!(exe.name.as_deref(), Some("zapret-1.0/bin/winws.exe"));
    assert!(!exe.is_dir);
    assert_eq!(exe.content.as_ref().unwrap(), b"exe");
}

#[test]
fn full_install_strips_the_wrapping_folder() {
    let plan = extract_zip(&release_zip(), "C:\\z", true).unwrap();
    assert_eq!(plan.error, None);
    assert_eq!(
        plan.steps,
        vec![
            ("C:\\z\\bin".to_string(), true, 0),
            ("C:\\z\\bin/winws.exe".to_string(), false, 1),
            ("C:\\z\\general.bat".to_string(), false, 2),
            ("C:\\z\\lists/list-general-user.txt".to_string(), false, 3),
            ("C:\\z\\readme.md".to_string(), false, 4),
        ]
    );
    assert_eq!(plan.entries[2].as_ref().unwrap().content.as_ref().unwrap(), b"bat");
}

#[test]
fn update_writes_only_what_it_replaces() {
    let plan = extract_zip(&release_zip(), "C:\\z", false).unwrap();
    assert_eq!(plan.error, None);
    assert_eq!(
        plan.steps,
        vec![("C:\\z\\bin/winws.exe".to_string(), false, 1), ("C:\\z\\general.bat".to_string(), false, 2)]
    );
}

#[test]
fn archive_without_a_wrapping_folder_keeps_its_paths() {
    let bytes = zip_of(&[("a.txt", Some(b"a")), ("dir/b.txt", Some(b"b"))]);
    let plan = extract_zip(&bytes, "C:\\z\\", true).unwrap();
    assert_eq!(
        plan.steps,
        vec![("C:\\z\\a.txt".to_string(), false, 0), ("C:\\z\\dir/b.txt".to_string(), false, 1)]
    );
}

#[test]
fn an_entry_for_the_folder_itself_keeps_it() {
    let bytes = zip_of(&[("zapret-1.0/", None), ("zapret-1.0/general.bat", Some(b"bat"))]);
    let plan = extract_zip(&bytes, "C:\\z", true).unwrap();
    assert_eq!(
        plan.steps,
        vec![("C:\\z\\zapret-1.0/".to_string(), true, 0), ("C:\\z\\zapret-1.0/general.bat".to_string(), false, 1)]
    );
}

#[test]
fn unreadable_archive_is_refused() {
    let err = extract_zip(&b"not a zip".to_vec(), "C:\\z", true).err().unwrap();
    assert!(err.starts_with("Ошибка открытия архива: "));
    assert!(read_zip(&Vec::new()).is_err());
}

#[test]
fn entry_path_components() {
    assert_eq!(first_component_of(&chars("zapret/bin/x")).map(|v| text(&v)), Some("zapret".to_string()));
    assert_eq!(first_component_of(&chars("./zapret/x")), None);
    assert_eq!(first_component_of(&chars("../x")), None);
    assert_eq!(first_component_of(&chars("/x")), None);
    assert!(has_nested_of(&chars("zapret/x")));
    assert!(!has_nested_of(&chars("zapret/")));
    assert!(!has_nested_of(&chars("zapret")));
    assert_eq!(text(&relative_to_of(&chars("zapret//bin/./x/."), &chars("zapret"))), "bin/./x");
    assert_eq!(text(&relative_to_of(&chars("other/x"), &chars("zapret"))), "other/x");
    assert_eq!(text(&last_name_of(&chars("C:\\z\\bin/"))), "bin");
    assert_eq!(text(&last_name_of(&chars("C:\\z\\.."))), "");
}
