use cpp_watcher::artifact::ArtifactKind;

#[test]
fn kept_files_are_named_after_what_they_hold() {
    assert_eq!(ArtifactKind::Input.prefix(), "input_");
    assert_eq!(ArtifactKind::Expected.prefix(), "expected_");
    assert_eq!(ArtifactKind::Actual.prefix(), "actual_");
    assert_eq!(ArtifactKind::TestCase.prefix(), "testcase_");
    assert_eq!(ArtifactKind::Output.prefix(), "output_");
    assert_eq!(ArtifactKind::Error.prefix(), "error_");
    assert_eq!(ArtifactKind::suffix(), ".txt");
}
