use proto_builder::compiler::version_read;
use proto_builder::Event;
use protoc::Protoc;

#[test]
fn version_report_of_the_vendored_compiler() {
    let Ok(path) = protoc_bin_vendored::protoc_bin_path() else {
        return;
    };
    let Ok(version) = Protoc::from_path(&path).version() else {
        return;
    };
    println!("the compiler tells a version of major 3: {}", version.is_3());
    assert_eq!(version_read(&version), Event::VersionRead { major_is_three: version.is_3() });
}
