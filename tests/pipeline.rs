use webmark::assets::{is_white, manifest_lines, trim_text};
use webmark::convert::{file_data_from, md_to_file_data, title_from_blocks, Block, FileData, Inline, TitleStatus};
use webmark::paths::{
    destination_for_file, extension_of, is_markdown, join_path, page_destination, parent_dir,
    resolve_entry, strip_root, with_html_extension, GenericError, Opt,
};
use webmark::scan::{DirEntry, Scanner};
use webmark::site::{build_page, PageError};
use webmark::template::{assemble, default_footer_text, default_header_text};
use webmark::text::{find_last, same_text, substitute};

fn opt(input: &str, output: &str) -> Opt {
    Opt { input: input.to_string(), output: output.to_string() }
}

fn entry(path: &str, is_dir: bool) -> DirEntry {
    DirEntry { path: path.to_string(), is_dir }
}

fn walk(scanner: &mut Scanner, listings: &[(&str, Vec<DirEntry>)]) {
    while let Some(dir) = scanner.next_dir() {
        if let Some((_, entries)) = listings.iter().find(|(d, _)| *d == dir) {
            scanner.add_listing(entries);
        }
    }
}

#[test]
fn scan_finds_exactly_the_two_markdown_files() {
    let mut scanner = Scanner::new("/site".to_string());
    let listings = vec![
        (
            "/site",
            vec![
                entry("/site/index.md", false),
                entry("/site/style.css", false),
                entry("/site/img", true),
                entry("/site/docs", true),
                entry("/site/README", false),
            ],
        ),
        ("/site/docs", vec![entry("/site/docs/guide.md", false), entry("/site/docs/notes.txt", false)]),
        ("/site/img", vec![entry("/site/img/logo.png", false), entry("/site/img/old.md.bak", false)]),
    ];
    walk(&mut scanner, &listings);
    let mut files = scanner.files().clone();
    files.sort();
    assert_eq!(files, vec!["/site/docs/guide.md".to_string(), "/site/index.md".to_string()]);
}

#[test]
fn scan_of_unreadable_root_is_empty() {
    let mut scanner = Scanner::new("/does/not/exist".to_string());
    assert_eq!(scanner.next_dir(), Some("/does/not/exist".to_string()));
    // the listing cannot be read: nothing is handed back
    assert_eq!(scanner.next_dir(), None);
    assert!(scanner.files().is_empty());
}

#[test]
fn scan_enters_each_directory_once() {
    let mut scanner = Scanner::new("/r".to_string());
    let listings = vec![
        ("/r", vec![entry("/r/a.md", false), entry("/r/loop", true), entry("/r/loop", true)]),
        ("/r/loop", vec![entry("/r", true), entry("/r/loop/b.md", false)]),
    ];
    let mut visits = 0;
    while let Some(dir) = scanner.next_dir() {
        visits += 1;
        if let Some((_, entries)) = listings.iter().find(|(d, _)| *d == dir) {
            scanner.add_listing(entries);
        }
    }
    assert_eq!(visits, 2);
    assert_eq!(scanner.files().len(), 2);
}

#[test]
fn scan_lists_a_linked_file_once() {
    let mut scanner = Scanner::new("/r".to_string());
    let listings = vec![
        ("/r", vec![entry("/r/a.md", false), entry("/r/a.md", false), entry("/r/sub", true)]),
        ("/r/sub", vec![entry("/r/a.md", false), entry("/r/sub/b.md", false)]),
    ];
    walk(&mut scanner, &listings);
    let mut files = scanner.files().clone();
    files.sort();
    assert_eq!(files, vec!["/r/a.md".to_string(), "/r/sub/b.md".to_string()]);
}

#[test]
fn page_and_asset_destinations() {
    let cfg = opt("/a/b", "/out");
    let src = "/a/b/c/d.md".to_string();
    assert_eq!(page_destination(&cfg, &src).ok(), Some("/out/c/d.html".to_string()));
    assert_eq!(destination_for_file(&cfg, &src).ok(), Some("/out/c/d.md".to_string()));
}

#[test]
fn destination_outside_input_root_is_an_error() {
    let cfg = opt("/a/b", "/out");
    let err = destination_for_file(&cfg, &"/a/bc/d.md".to_string()).err().unwrap();
    assert_eq!(err.message, "path is not under the input directory");
    assert!(page_destination(&cfg, &"/x/d.md".to_string()).is_err());
}

#[test]
fn destination_from_filesystem_root() {
    let cfg = opt("/", "/out/");
    assert_eq!(destination_for_file(&cfg, &"/p/q.png".to_string()).ok(), Some("/out/p/q.png".to_string()));
}

#[test]
fn strip_root_cases() {
    assert_eq!(strip_root("/a/b", "/a/b/c"), Some("c".to_string()));
    assert_eq!(strip_root("/a/b", "/a/b"), Some("".to_string()));
    assert_eq!(strip_root("/a/b", "/a/bc"), None);
    assert_eq!(strip_root("/a/b/", "/a/b/c"), Some("c".to_string()));
    assert_eq!(strip_root("/a/b", "/a"), None);
}

#[test]
fn join_path_cases() {
    assert_eq!(join_path("/out", "x/y"), "/out/x/y");
    assert_eq!(join_path("/out/", "x"), "/out/x");
    assert_eq!(join_path("/out", ""), "/out");
}

#[test]
fn extension_cases() {
    assert_eq!(extension_of("/a/b.md"), Some("md".to_string()));
    assert_eq!(extension_of("/a/b.tar.gz"), Some("gz".to_string()));
    assert_eq!(extension_of("/a/.hidden"), None);
    assert_eq!(extension_of("/a.d/file"), None);
    assert!(is_markdown("/a/b.md"));
    assert!(!is_markdown("/a/b.mdx"));
    assert!(!is_markdown("/a/.md"));
    assert!(!is_markdown("/a/md"));
}

#[test]
fn html_extension_cases() {
    assert_eq!(with_html_extension("/out/c/d.md"), "/out/c/d.html");
    assert_eq!(with_html_extension("/out/c/d"), "/out/c/d.html");
    assert_eq!(with_html_extension("/out/c/.d"), "/out/c/.d.html");
    assert_eq!(with_html_extension("/out/v.1/a.b.md"), "/out/v.1/a.b.html");
    assert_eq!(with_html_extension("/out/"), "/out/");
}

#[test]
fn resolve_and_parent() {
    assert_eq!(resolve_entry("/site", "assets/logo.png"), "/site/assets/logo.png");
    assert_eq!(resolve_entry("/site", "/abs/logo.png"), "/abs/logo.png");
    assert_eq!(parent_dir("/out/c/d.html"), Some("/out/c".to_string()));
    assert_eq!(parent_dir("/d.html"), Some("/".to_string()));
    assert_eq!(parent_dir("d.html"), None);
}

#[test]
fn text_helpers() {
    assert!(same_text("abc", "abc"));
    assert!(!same_text("abc", "abd"));
    assert!(!same_text("abc", "ab"));
    assert_eq!(find_last("a/b/c", '/'), Some(3));
    assert_eq!(find_last("abc", '/'), None);
}

#[test]
fn convert_takes_title_from_first_level_one_heading() {
    let d = md_to_file_data("# Hello World\n\nBody text").ok().unwrap();
    assert_eq!(d.title, "Hello World");
    assert_eq!(d.title_status, TitleStatus::Found);
    assert_eq!(d.html_content, "<h1>Hello World</h1>\n<p>Body text</p>\n");
}

#[test]
fn convert_without_level_one_heading_has_empty_title() {
    let d = md_to_file_data("## Sub\n\nText\n").ok().unwrap();
    assert_eq!(d.title, "");
    assert_eq!(d.title_status, TitleStatus::Missing);
    assert_eq!(d.html_content, "<h2>Sub</h2>\n<p>Text</p>\n");
}

#[test]
fn convert_skips_nested_and_later_headings() {
    let d = md_to_file_data("> # Quoted\n\n## Two\n\n# First\n\n# Second\n").ok().unwrap();
    assert_eq!(d.title, "First");
}

#[test]
fn convert_heading_not_starting_with_text() {
    let d = md_to_file_data("# *Styled* title\n").ok().unwrap();
    assert_eq!(d.title, "");
    assert_eq!(d.title_status, TitleStatus::NotText);
}

#[test]
fn convert_empty_heading() {
    let d = md_to_file_data("#\n\ntext\n").ok().unwrap();
    assert_eq!(d.title, "");
    assert_eq!(d.title_status, TitleStatus::Empty);
}

#[test]
fn title_from_blocks_cases() {
    let blocks = vec![
        Block::Other,
        Block::Heading(2, Inline::Text(b"two".to_vec())),
        Block::Heading(1, Inline::Text("Tít".as_bytes().to_vec())),
        Block::Heading(1, Inline::Text(b"later".to_vec())),
    ];
    assert_eq!(title_from_blocks(&blocks), ("Tít".to_string(), TitleStatus::Found));
    let bad = vec![Block::Heading(1, Inline::Text(vec![0xff, 0x41]))];
    assert_eq!(title_from_blocks(&bad), (String::new(), TitleStatus::Found));
    assert_eq!(title_from_blocks(&vec![Block::Heading(1, Inline::Other)]).1, TitleStatus::NotText);
    assert_eq!(title_from_blocks(&vec![Block::Heading(1, Inline::Missing)]).1, TitleStatus::Empty);
    assert_eq!(title_from_blocks(&vec![]), (String::new(), TitleStatus::Missing));
}

#[test]
fn file_data_from_cases() {
    let blocks = vec![Block::Heading(1, Inline::Text(b"T".to_vec()))];
    let d = file_data_from(&blocks, Some("<p>x</p>".to_string())).ok().unwrap();
    assert_eq!(d.html_content, "<p>x</p>");
    assert_eq!(d.title, "T");
    assert_eq!(file_data_from(&blocks, None).err(), Some("Could not format html.".to_string()));
}

fn data(title: &str, body: &str) -> FileData {
    FileData { html_content: body.to_string(), title: title.to_string(), title_status: TitleStatus::Found }
}

#[test]
fn assemble_substitutes_title_in_header_only() {
    assert_eq!(assemble("<title>{title}</title>", "", &data("X", "<p>Y</p>")), "<title>X</title><p>Y</p>");
    assert_eq!(
        assemble("{title}|{title}", "<i>{title}</i>", &data("T", "B")),
        "T|TB<i>{title}</i>"
    );
}

#[test]
fn default_templates() {
    assert_eq!(
        assemble(&default_header_text(), &default_footer_text(), &data("Home", "<p>hi</p>")),
        "<html><head><title>Home</title><body><p>hi</p></body></html>"
    );
}

#[test]
fn substitute_cases() {
    assert_eq!(substitute("a{t}b{t}", "{t}", "X"), "aXbX");
    assert_eq!(substitute("aaa", "aa", "b"), "ba");
    assert_eq!(substitute("abc", "", "X"), "abc");
    assert_eq!(substitute("", "x", "y"), "");
    assert_eq!(substitute("ü{t}", "{t}", "é"), "üé");
}

#[test]
fn build_page_twice_gives_identical_output() {
    let cfg = opt("/in", "/out");
    let src = "/in/docs/page.md".to_string();
    let first = build_page(&cfg, &src, "# Page\n\nText", "<h>{title}</h>", "<f/>").ok().unwrap();
    let second = build_page(&cfg, &src, "# Page\n\nText", "<h>{title}</h>", "<f/>").ok().unwrap();
    assert_eq!(first.destination, "/out/docs/page.html");
    assert_eq!(first.content, "<h>Page</h><h1>Page</h1>\n<p>Text</p>\n<f/>");
    assert_eq!(first.destination, second.destination);
    assert_eq!(first.content, second.content);
}

#[test]
fn build_page_outside_root_is_a_mapping_error() {
    let cfg = opt("/in", "/out");
    match build_page(&cfg, &"/elsewhere/p.md".to_string(), "# P", "{title}", "") {
        Err(PageError::Mapping(e)) => assert_eq!(e.message, "path is not under the input directory"),
        _ => panic!("expected a mapping error"),
    }
}

#[test]
fn manifest_skips_leading_blank_lines_and_trims() {
    assert_eq!(manifest_lines("\n\n assets/logo.png "), vec!["assets/logo.png".to_string()]);
}

#[test]
fn manifest_cases() {
    assert_eq!(manifest_lines(""), Vec::<String>::new());
    assert_eq!(manifest_lines("a\n\n  \nb\r\n\tc d \n"), vec!["a".to_string(), "b".to_string(), "c d".to_string()]);
}

#[test]
fn white_space_cases() {
    assert!(is_white(' '));
    assert!(is_white('\n'));
    assert!(is_white('\u{2003}'));
    assert!(!is_white('x'));
    assert!(!is_white('\u{200b}'));
    for c in ['\u{0}', 'a', ' ', '\t', '\u{85}', '\u{a0}', '\u{1680}', '\u{180e}', '\u{2028}', '\u{feff}', '\u{3000}'] {
        assert_eq!(is_white(c), c.is_whitespace());
    }
}

#[test]
fn trim_cases() {
    assert_eq!(trim_text("\t x y \n"), "x y");
    assert_eq!(trim_text("\u{3000}z\u{a0}"), "z");
    assert_eq!(trim_text("   "), "");
    assert_eq!(trim_text("a"), "a");
}

#[test]
fn generic_error_message() {
    let e = GenericError::new("Input directory was not found.".to_string());
    assert_eq!(e.message, "Input directory was not found.");
    assert_eq!(e.to_string(), "[error] Input directory was not found.");
}
