use udemy_dl::error::UdemyError;
use udemy_dl::model::{Chapter, Lecture};
use udemy_dl::path::{file_extension, push_path};
use udemy_dl::udemy_helper::{FsHelper, UdemyHelper};

struct MockFsHelper {}

impl FsHelper for MockFsHelper {
    fn create_dir_recursive(&self, _path: &str) -> Result<(), UdemyError> {
        Ok(())
    }
}

#[test]
fn calculate_target_dir() {
    let chapter = Chapter {
        object_index: 23,
        title: "The Title".into(),
        lectures: vec![],
    };

    let fs_helper = MockFsHelper {};
    let udemy_helper = UdemyHelper::new(&fs_helper);
    let actual = udemy_helper.calculate_target_dir("./", &chapter, "my-course");

    assert!(actual.is_ok());
    assert_eq!(actual.unwrap(), "./my-course/023 The Title");
}

#[test]
fn calculate_target_file() {
    let lecture = Lecture {
        has_video: true,
        filename: "blah-blah.mp4".into(),
        id: 4321,
        object_index: 32,
        title: "The Lecture".into(),
    };

    let fs_helper = MockFsHelper {};
    let udemy_helper = UdemyHelper::new(&fs_helper);

    let actual = udemy_helper.calculate_target_filename("./", &lecture);

    assert!(actual.is_ok());
    assert_eq!(actual.unwrap(), "./032 The Lecture.mp4");
}

#[test]
fn target_names_pad_and_sanitize() {
    let chapter = Chapter { object_index: 1234, title: "A/B: c".into(), lectures: vec![] };
    let lecture = Lecture {
        has_video: true,
        filename: "dir/x.tar.gz".into(),
        id: 1,
        object_index: 5,
        title: ".intro?".into(),
    };
    let fs_helper = MockFsHelper {};
    let helper = UdemyHelper::new(&fs_helper);
    assert_eq!(helper.calculate_target_dir("out", &chapter, "c").unwrap(), "out/c/1234 A_B_ c");
    assert_eq!(helper.calculate_target_filename("", &lecture).unwrap(), "005 _intro_.gz");
    assert!(helper.create_target_dir("anything").is_ok());
}

#[test]
fn path_joining_follows_pathbuf_push() {
    for (base, seg) in [("./", "a"), ("out", "b c"), ("", "x"), ("a/", "/abs"), ("a", "")] {
        let mut expected = std::path::PathBuf::from(base);
        expected.push(seg);
        assert_eq!(push_path(base, seg), expected.to_str().unwrap());
    }
}

#[test]
fn extension_follows_path_extension() {
    for p in [
        "blah-blah.mp4", "a.b.c", ".bashrc", "noext", "x..", "dir/", "dir/f.txt/", "a/.", "a/..",
        "..", ".", "", "/", ".a.b", "a.b/.", "a./",
    ] {
        let expected = std::path::Path::new(p)
            .extension()
            .map(|e| e.to_string_lossy().to_string());
        assert_eq!(file_extension(p), expected, "path {:?}", p);
    }
}
