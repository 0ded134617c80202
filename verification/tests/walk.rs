use webp_batch::error::{ConvertError, FileOperation};
use webp_batch::extension::SourceFormat;
use webp_batch::plan::WritePlan;
use webp_batch::walk::{
    collect_listing, plan_entry, process_directory, process_directory_destructive, process_directory_internal,
    DirEntry, EntryKind, Listing, Task, WalkRequest,
};

fn file(name: &str) -> DirEntry {
    DirEntry { name: String::from(name), kind: EntryKind::File }
}

fn dir(name: &str) -> DirEntry {
    DirEntry { name: String::from(name), kind: EntryKind::Directory }
}

fn other(name: &str) -> DirEntry {
    DirEntry { name: String::from(name), kind: EntryKind::Other }
}

fn convert(source: &str, target: &str, staging: Option<&str>, format: SourceFormat, quality: u8) -> Task {
    Task::Convert {
        plan: WritePlan {
            source: String::from(source),
            target: String::from(target),
            staging: staging.map(String::from),
        },
        format,
        quality,
    }
}

#[test]
fn a_missing_input_directory_calls_for_nothing() {
    let tasks = process_directory(String::from("nowhere"), Some(String::from("out")), None, &Listing::Absent).unwrap();
    assert!(tasks.is_empty());
    let tasks = process_directory(String::from("nowhere"), None, Some(80), &Listing::Absent).unwrap();
    assert!(tasks.is_empty());
    let tasks = process_directory_destructive(String::from("nowhere"), Some(true), None, &Listing::Absent).unwrap();
    assert!(tasks.is_empty());
}

#[test]
fn a_directory_that_cannot_be_read_fails_the_walk() {
    let listing = Listing::Unreadable(String::from("permission denied"));
    let expected = Err(ConvertError::Filesystem {
        operation: FileOperation::ReadDirectory,
        cause: String::from("permission denied"),
    });
    assert_eq!(process_directory(String::from("in"), None, None, &listing), expected);
    assert_eq!(
        process_directory_destructive(String::from("in"), Some(true), Some(3), &listing),
        expected
    );
    let request = WalkRequest {
        input_dir: String::from("in"),
        output_dir: None,
        keep_original_ext: false,
        quality: 100,
    };
    assert_eq!(process_directory_internal(&request, &listing), expected);
}

#[test]
fn an_empty_directory_calls_for_nothing() {
    let tasks = process_directory(String::from("in"), None, None, &Listing::Entries(vec![])).unwrap();
    assert!(tasks.is_empty());
}

#[test]
fn one_supported_and_one_unsupported_file_give_one_conversion() {
    let listing = Listing::Entries(vec![file("photo.jpg"), file("notes.txt")]);
    let tasks = process_directory(String::from("in"), Some(String::from("out")), None, &listing).unwrap();
    assert_eq!(
        tasks,
        vec![convert("in/photo.jpg", "out/photo.webp", None, SourceFormat::Jpeg, 100)]
    );
}

#[test]
fn conversions_beside_the_originals() {
    let listing = Listing::Entries(vec![file("a.PNG"), file("b.webp"), file("c.bmp")]);
    let tasks = process_directory(String::from("in"), None, Some(75), &listing).unwrap();
    assert_eq!(
        tasks,
        vec![
            convert("in/a.PNG", "in/a.webp", None, SourceFormat::Png, 75),
            convert("in/c.bmp", "in/c.webp", None, SourceFormat::Bmp, 75),
        ]
    );
}

#[test]
fn each_extension_is_decoded_as_its_format() {
    let listing = Listing::Entries(vec![
        file("a.jpg"),
        file("b.JPEG"),
        file("c.png"),
        file("d.bmp"),
        file("e.Tiff"),
    ]);
    let tasks = process_directory(String::from(""), None, None, &listing).unwrap();
    let formats: Vec<SourceFormat> = tasks
        .iter()
        .map(|t| match t {
            Task::Convert { format, .. } => *format,
            Task::Descend(_) => panic!("no directory was listed"),
        })
        .collect();
    assert_eq!(
        formats,
        vec![
            SourceFormat::Jpeg,
            SourceFormat::Jpeg,
            SourceFormat::Png,
            SourceFormat::Bmp,
            SourceFormat::Tiff
        ]
    );
}

#[test]
fn subdirectories_are_walked_with_a_mirrored_output() {
    let listing = Listing::Entries(vec![dir("album"), file("top.jpg")]);
    let tasks = process_directory(String::from("in"), Some(String::from("out")), Some(60), &listing).unwrap();
    assert_eq!(
        tasks,
        vec![
            Task::Descend(WalkRequest {
                input_dir: String::from("in/album"),
                output_dir: Some(String::from("out/album")),
                keep_original_ext: false,
                quality: 60,
            }),
            convert("in/top.jpg", "out/top.webp", None, SourceFormat::Jpeg, 60),
        ]
    );
}

#[test]
fn subdirectories_without_output_directory() {
    let listing = Listing::Entries(vec![dir("album.png")]);
    let tasks = process_directory_destructive(String::from("in"), Some(true), None, &listing).unwrap();
    assert_eq!(
        tasks,
        vec![Task::Descend(WalkRequest {
            input_dir: String::from("in/album.png"),
            output_dir: None,
            keep_original_ext: true,
            quality: 100,
        })]
    );
}

#[test]
fn entries_that_are_neither_file_nor_directory_are_passed_over() {
    let listing = Listing::Entries(vec![other("socket.jpg"), other("pipe")]);
    let tasks = process_directory(String::from("in"), None, None, &listing).unwrap();
    assert!(tasks.is_empty());
}

#[test]
fn in_place_conversion_rewrites_names_unless_told_to_keep_them() {
    let listing = Listing::Entries(vec![file("photo.jpg")]);
    let rewritten = process_directory_destructive(String::from("in"), None, None, &listing).unwrap();
    assert_eq!(
        rewritten,
        vec![convert("in/photo.jpg", "in/photo.webp", None, SourceFormat::Jpeg, 100)]
    );
    let rewritten = process_directory_destructive(String::from("in"), Some(false), Some(90), &listing).unwrap();
    assert_eq!(
        rewritten,
        vec![convert("in/photo.jpg", "in/photo.webp", None, SourceFormat::Jpeg, 90)]
    );
    let kept = process_directory_destructive(String::from("in"), Some(true), Some(90), &listing).unwrap();
    assert_eq!(
        kept,
        vec![convert(
            "in/photo.jpg",
            "in/photo.jpg",
            Some("in/photo.webp.tmp"),
            SourceFormat::Jpeg,
            90
        )]
    );
}

#[test]
fn tasks_follow_the_order_of_the_listing() {
    let listing = Listing::Entries(vec![
        file("z.png"),
        dir("m"),
        file("skip.txt"),
        file("a.png"),
        dir("b"),
    ]);
    let tasks = process_directory(String::from("in"), None, None, &listing).unwrap();
    let names: Vec<String> = tasks
        .iter()
        .map(|t| match t {
            Task::Convert { plan, .. } => plan.source.clone(),
            Task::Descend(request) => request.input_dir.clone(),
        })
        .collect();
    assert_eq!(names, vec!["in/z.png", "in/m", "in/a.png", "in/b"]);
}

#[test]
fn a_walk_continues_from_the_request_of_a_subdirectory() {
    let top = Listing::Entries(vec![dir("album")]);
    let tasks = process_directory(String::from("in"), Some(String::from("out")), Some(50), &top).unwrap();
    let child = match &tasks[0] {
        Task::Descend(request) => request.clone(),
        Task::Convert { .. } => panic!("a directory was listed"),
    };
    let below = Listing::Entries(vec![file("deep.tiff"), dir("more")]);
    let tasks = process_directory_internal(&child, &below).unwrap();
    assert_eq!(
        tasks,
        vec![
            convert("in/album/deep.tiff", "out/album/deep.webp", None, SourceFormat::Tiff, 50),
            Task::Descend(WalkRequest {
                input_dir: String::from("in/album/more"),
                output_dir: Some(String::from("out/album/more")),
                keep_original_ext: false,
                quality: 50,
            }),
        ]
    );
    assert!(process_directory_internal(&child, &Listing::Absent).unwrap().is_empty());
}

#[test]
fn a_second_run_beside_the_originals_plans_the_same_conversions() {
    let first = Listing::Entries(vec![file("a.jpg"), file("b.png")]);
    let request = WalkRequest {
        input_dir: String::from("in"),
        output_dir: None,
        keep_original_ext: false,
        quality: 100,
    };
    let planned = process_directory_internal(&request, &first).unwrap();
    let second = Listing::Entries(vec![
        file("a.jpg"),
        file("b.png"),
        file("a.webp"),
        file("b.webp"),
    ]);
    assert_eq!(process_directory_internal(&request, &second).unwrap(), planned);
}

#[test]
fn one_entry_at_a_time() {
    let request = WalkRequest {
        input_dir: String::from("in"),
        output_dir: Some(String::from("out")),
        keep_original_ext: true,
        quality: 42,
    };
    assert_eq!(
        plan_entry(&request, &file("x.bmp")),
        Some(convert("in/x.bmp", "out/x.bmp", None, SourceFormat::Bmp, 42))
    );
    assert_eq!(plan_entry(&request, &file("x.txt")), None);
    assert_eq!(plan_entry(&request, &file("bmp")), None);
    assert_eq!(plan_entry(&request, &other("x.bmp")), None);
}

#[test]
fn entries_that_were_all_read_make_the_listing() {
    let read = vec![Ok(file("a.jpg")), Ok(dir("album")), Ok(other("pipe"))];
    assert_eq!(
        collect_listing(read),
        Listing::Entries(vec![file("a.jpg"), dir("album"), other("pipe")])
    );
    assert_eq!(collect_listing(vec![]), Listing::Entries(vec![]));
}

#[test]
fn one_entry_that_failed_to_read_makes_the_directory_unreadable() {
    let read = vec![Ok(file("a.jpg")), Err(String::from("input/output error")), Ok(file("b.png"))];
    assert_eq!(collect_listing(read), Listing::Unreadable(String::from("input/output error")));
    let read = vec![Err(String::from("first")), Ok(file("a.jpg")), Err(String::from("second"))];
    assert_eq!(collect_listing(read), Listing::Unreadable(String::from("first")));
}

#[test]
fn an_entry_that_failed_to_read_fails_the_walk() {
    let read = vec![Ok(file("a.jpg")), Err(String::from("stale file handle"))];
    let listing = collect_listing(read);
    let r = process_directory(String::from("in"), Some(String::from("out")), None, &listing);
    assert_eq!(
        r,
        Err(ConvertError::Filesystem {
            operation: FileOperation::ReadDirectory,
            cause: String::from("stale file handle"),
        })
    );
}

#[test]
fn a_second_run_plans_the_same_conversions_whatever_the_order() {
    let request = WalkRequest {
        input_dir: String::from("in"),
        output_dir: None,
        keep_original_ext: false,
        quality: 100,
    };
    let first = Listing::Entries(vec![file("a.jpg"), dir("album"), file("b.v2.png")]);
    let mut planned = process_directory_internal(&request, &first).unwrap();
    let second = Listing::Entries(vec![
        file("b.v2.webp"),
        file("b.v2.png"),
        file("a.webp.tmp"),
        dir("album"),
        file("a.webp"),
        file("a.jpg"),
    ]);
    let mut again = process_directory_internal(&request, &second).unwrap();
    let key = |t: &Task| match t {
        Task::Convert { plan, .. } => plan.source.clone(),
        Task::Descend(request) => request.input_dir.clone(),
    };
    planned.sort_by_key(key);
    again.sort_by_key(key);
    assert_eq!(planned, again);
}

#[test]
fn names_with_two_extensions_keep_the_first_in_an_output_directory() {
    let listing = Listing::Entries(vec![file("photo.v2.png"), file("photo.v3.png")]);
    let tasks = process_directory(String::from("in"), Some(String::from("out")), None, &listing).unwrap();
    assert_eq!(
        tasks,
        vec![
            convert("in/photo.v2.png", "out/photo.v2.webp", None, SourceFormat::Png, 100),
            convert("in/photo.v3.png", "out/photo.v3.webp", None, SourceFormat::Png, 100),
        ]
    );
}
