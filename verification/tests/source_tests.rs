use badapple::badframes::Frames;

#[test]
fn file_name_is_built_from_the_index() {
    assert_eq!(Frames::frame_file_name(1), "frame1.jpg");
    assert_eq!(Frames::frame_file_name(5), "frame5.jpg");
    assert_eq!(Frames::frame_file_name(120), "frame120.jpg");
}

#[test]
fn parse_reads_back_built_names() {
    for id in [1usize, 2, 9, 10, 42, 100, 4096] {
        let name = Frames::frame_file_name(id);
        assert_eq!(Frames::parse_frame_index(&name), Some(id));
    }
}

#[test]
fn parse_accepts_embedded_indices() {
    assert_eq!(Frames::parse_frame_index("frame12"), Some(12));
    assert_eq!(Frames::parse_frame_index("aframe2.b.jpg"), Some(2));
    assert_eq!(Frames::parse_frame_index("frame7.png"), Some(7));
}

#[test]
fn parse_rejects_names_without_an_index() {
    assert_eq!(Frames::parse_frame_index(""), None);
    assert_eq!(Frames::parse_frame_index("cover.png"), None);
    assert_eq!(Frames::parse_frame_index("frame.jpg"), None);
    assert_eq!(Frames::parse_frame_index("framex.jpg"), None);
    assert_eq!(Frames::parse_frame_index("frameframe7.jpg"), None);
}

#[test]
fn discovery_reports_the_maximum_index() {
    let mut names: Vec<String> = Vec::new();
    for id in [3usize, 1, 10, 7, 2, 9, 4, 8, 5, 6] {
        names.push(Frames::frame_file_name(id));
    }
    let mut f = Frames::new(4, 4);
    assert!(f.discover_frames(&names));
    assert_eq!(f.max_frame_id, 10);
}

#[test]
fn discovery_fails_on_an_unparseable_name() {
    let names = vec![
        "frame1.jpg".to_string(),
        "frame2.jpg".to_string(),
        "cover.png".to_string(),
    ];
    let mut f = Frames::new(4, 4);
    assert!(!f.discover_frames(&names));
    assert_eq!(f.max_frame_id, 0);
}

#[test]
fn discovery_fails_on_an_empty_directory() {
    let names: Vec<String> = Vec::new();
    let mut f = Frames::new(4, 4);
    assert!(!f.discover_frames(&names));
    assert_eq!(f.max_frame_id, 0);
}
