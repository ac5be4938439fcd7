use rmbg::errors::RmbgError;
use rmbg::pathres::build_candidate;
use rmbg::pathres::build_output_candidate;
use rmbg::pathres::get_unique_file_path;

fn s(x: &str) -> String {
    x.to_string()
}

fn listing(xs: &[&str]) -> Vec<String> {
    xs.iter().map(|x| x.to_string()).collect()
}

#[test]
fn free_path_is_returned_unchanged() {
    let path = s("out/photo-rmbg.png");
    let existing: Vec<String> = Vec::new();
    assert_eq!(get_unique_file_path(&path, &existing).unwrap(), "out/photo-rmbg.png");
}

#[test]
fn free_path_unchanged_among_other_files() {
    let path = s("out/photo-rmbg.png");
    let existing = listing(&["out/other.png", "out/photo.png"]);
    assert_eq!(get_unique_file_path(&path, &existing).unwrap(), "out/photo-rmbg.png");
}

#[test]
fn first_collision_appends_one() {
    let path = s("out/photo-rmbg.png");
    let existing = listing(&["out/photo-rmbg.png"]);
    assert_eq!(get_unique_file_path(&path, &existing).unwrap(), "out/photo-rmbg_1.png");
}

#[test]
fn n_collisions_append_n_plus_one() {
    let path = s("out/photo-rmbg.png");
    let existing = listing(&[
        "out/photo-rmbg.png",
        "out/photo-rmbg_1.png",
        "out/photo-rmbg_2.png",
    ]);
    assert_eq!(get_unique_file_path(&path, &existing).unwrap(), "out/photo-rmbg_3.png");
}

#[test]
fn gap_in_numbering_is_taken() {
    let path = s("out/photo-rmbg.png");
    let existing = listing(&["out/photo-rmbg.png", "out/photo-rmbg_2.png"]);
    assert_eq!(get_unique_file_path(&path, &existing).unwrap(), "out/photo-rmbg_1.png");
}

#[test]
fn collision_without_extension() {
    let path = s("out/data");
    let existing = listing(&["out/data"]);
    assert_eq!(get_unique_file_path(&path, &existing).unwrap(), "out/data_1");
}

#[test]
fn collision_with_empty_extension() {
    let path = s("out/data.");
    let existing = listing(&["out/data."]);
    assert_eq!(get_unique_file_path(&path, &existing).unwrap(), "out/data_1.");
}

#[test]
fn hidden_file_has_no_extension() {
    let path = s("out/.hidden");
    let existing = listing(&["out/.hidden"]);
    assert_eq!(get_unique_file_path(&path, &existing).unwrap(), "out/.hidden_1");
}

#[test]
fn dotted_stem_keeps_its_dots() {
    let path = s("out/archive.tar.gz");
    let existing = listing(&["out/archive.tar.gz"]);
    assert_eq!(get_unique_file_path(&path, &existing).unwrap(), "out/archive.tar_1.gz");
}

#[test]
fn taken_path_without_file_name_fails() {
    let path = s("out/");
    let existing = listing(&["out/"]);
    assert_eq!(get_unique_file_path(&path, &existing).unwrap_err(), RmbgError::PathError);
}

#[test]
fn empty_file_name_ok_while_free() {
    let path = s("out/");
    let existing: Vec<String> = Vec::new();
    assert_eq!(get_unique_file_path(&path, &existing).unwrap(), "out/");
}

#[test]
fn candidate_renders_count_in_decimal() {
    let path = s("dir/photo.jpg");
    assert_eq!(build_candidate(&path, 7).unwrap(), "dir/photo_7.jpg");
    assert_eq!(build_candidate(&path, 123).unwrap(), "dir/photo_123.jpg");
    assert_eq!(build_candidate(&path, 1000).unwrap(), "dir/photo_1000.jpg");
}

#[test]
fn candidate_without_file_name_fails() {
    let path = s("dir/");
    assert_eq!(build_candidate(&path, 1).unwrap_err(), RmbgError::PathError);
}

#[test]
fn output_candidate_joins_and_renames() {
    assert_eq!(build_output_candidate("out", "photo.jpg").unwrap(), "out/photo-rmbg.png");
    assert_eq!(build_output_candidate("out/", "a/b/photo.jpg").unwrap(), "out/photo-rmbg.png");
    assert_eq!(build_output_candidate("", "photo.jpg").unwrap(), "photo-rmbg.png");
    assert_eq!(
        build_output_candidate("out", "archive.tar.gz").unwrap(),
        "out/archive.tar-rmbg.png"
    );
    assert_eq!(build_output_candidate("out", "plain").unwrap(), "out/plain-rmbg.png");
}

#[test]
fn output_candidate_without_file_name_fails() {
    assert_eq!(build_output_candidate("out", "dir/").unwrap_err(), RmbgError::PathError);
}

#[test]
fn second_run_scenario_yields_numbered_output() {
    // first run: empty directory
    let candidate = build_output_candidate("out", "photo.jpg").unwrap();
    let first = get_unique_file_path(&candidate, &Vec::new()).unwrap();
    assert_eq!(first, "out/photo-rmbg.png");
    // second run: the first output still there
    let existing = vec![first];
    let second = get_unique_file_path(&candidate, &existing).unwrap();
    assert_eq!(second, "out/photo-rmbg_1.png");
}
