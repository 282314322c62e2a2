use wiki_server::folders::{count_folders, folder_report, DirEntry};
use wiki_server::fragments::FragmentCache;
use wiki_server::responder::{Action, Body, Event, ServedDocument, Session, Status};
use wiki_server::routes::{base_directory, request_path, Root};
use wiki_server::snapshot::{serve_path, FileNode, Snapshot};

const HTML: &str = "text/html; charset=utf-8";

fn cache() -> FragmentCache {
    FragmentCache::preload_components(
        &vec!["head".to_string(), "navbar".to_string(), "footer".to_string()],
        &vec![Some("H".to_string()), Some("N".to_string()), Some("F".to_string())],
    )
}

fn dir(path: &str) -> FileNode {
    FileNode { path: path.to_string(), directory: true, text: None, bytes: None }
}

fn file(path: &str, content: &str) -> FileNode {
    FileNode {
        path: path.to_string(),
        directory: false,
        text: Some(content.to_string()),
        bytes: Some(content.as_bytes().to_vec()),
    }
}

fn blob(path: &str, bytes: &[u8]) -> FileNode {
    FileNode { path: path.to_string(), directory: false, text: None, bytes: Some(bytes.to_vec()) }
}

fn unreadable(path: &str) -> FileNode {
    FileNode { path: path.to_string(), directory: false, text: None, bytes: None }
}

fn tree(nodes: Vec<FileNode>) -> Snapshot {
    Snapshot { nodes }
}

fn page(body: &str) -> ServedDocument {
    ServedDocument {
        status: Status::Success,
        content_type: Some(HTML.to_string()),
        body: Body::Text(body.to_string()),
    }
}

fn not_found() -> ServedDocument {
    ServedDocument {
        status: Status::NotFound,
        content_type: None,
        body: Body::Text("File not found".to_string()),
    }
}

fn forbidden() -> ServedDocument {
    ServedDocument {
        status: Status::Forbidden,
        content_type: None,
        body: Body::Text("Invalid or unsafe path".to_string()),
    }
}

#[test]
fn traversal_is_forbidden_before_any_disk_action() {
    for raw in ["../secret", "a/../../etc/passwd", "  ../x", "/etc/passwd", "   "] {
        let (_, action) = Session::open("Data", raw, false);
        assert_eq!(action, Action::Respond(forbidden()), "path {:?}", raw);
    }
}

#[test]
fn traversal_is_forbidden_on_any_tree() {
    let t = tree(vec![dir("Data/"), file("Data/../secret", "s"), file("secret", "s")]);
    assert_eq!(serve_path("Data", "../secret", &cache(), false, &t), forbidden());
    assert_eq!(serve_path("Data", "a/../../etc/passwd", &cache(), true, &t), forbidden());
}

#[test]
fn root_request_probes_the_base_directory() {
    for raw in ["", "/"] {
        let (session, action) = Session::open("Frontend/pages", raw, false);
        assert_eq!(action, Action::IsDirectory("Frontend/pages/".to_string()));
        assert_eq!(session.live, false);
    }
    let (_, action) = Session::open("Data", " notes/a.md ", true);
    assert_eq!(action, Action::IsDirectory("Data/notes/a.md".to_string()));
}

#[test]
fn root_with_index_html_is_composed() {
    let t = tree(vec![
        dir("Frontend/pages/"),
        file("Frontend/pages/index.html", "{{ head }}<p>home</p>{{ footer }}"),
    ]);
    assert_eq!(serve_path("Frontend/pages", "", &cache(), false, &t), page("H<p>home</p>F"));
    assert_eq!(serve_path("Frontend/pages", "/", &cache(), false, &t), page("H<p>home</p>F"));
}

#[test]
fn index_html_comes_before_main_md() {
    let t = tree(vec![
        dir("Data/"),
        file("Data/main.md", "# md"),
        file("Data/index.html", "html {{ navbar }}"),
        file("Frontend/static/wikishell.html", "{{ content }}"),
    ]);
    assert_eq!(serve_path("Data", "", &cache(), false, &t), page("html N"));
}

#[test]
fn directory_with_only_main_md_is_rendered_into_the_shell() {
    let t = tree(vec![
        dir("Data/guide"),
        file("Data/guide/main.md", "# Guide"),
        file("Frontend/static/wikishell.html", "{{ head }}<main>{{ content }}</main>{{ footer }}"),
    ]);
    assert_eq!(
        serve_path("Data", "guide", &cache(), false, &t),
        page("H<main><h1>Guide</h1>\n</main>F")
    );
}

#[test]
fn markdown_without_shell_is_not_found() {
    let t = tree(vec![dir("Data/guide"), file("Data/guide/main.md", "# Guide")]);
    assert_eq!(serve_path("Data", "guide", &cache(), false, &t), not_found());
}

#[test]
fn unreadable_index_html_falls_through_to_main_md() {
    let t = tree(vec![
        dir("Data/"),
        unreadable("Data/index.html"),
        file("Data/main.md", "text"),
        file("Frontend/static/wikishell.html", "[{{ content }}]"),
    ]);
    assert_eq!(serve_path("Data", "", &cache(), false, &t), page("[<p>text</p>\n]"));
}

#[test]
fn unreadable_main_md_is_not_found() {
    let t = tree(vec![dir("Data/"), unreadable("Data/main.md")]);
    assert_eq!(serve_path("Data", "", &cache(), false, &t), not_found());
}

#[test]
fn empty_directory_is_not_found() {
    let t = tree(vec![dir("Data/"), dir("Data/empty")]);
    assert_eq!(serve_path("Data", "empty", &cache(), false, &t), not_found());
}

#[test]
fn missing_path_is_not_found() {
    let t = tree(vec![dir("Data/"), file("Data/a.txt", "a")]);
    for base in ["Data", "Frontend/static", "Frontend/pages"] {
        for raw in ["nothing.html", "nothing.png", "nothing", "deep/er/path.css"] {
            assert_eq!(serve_path(base, raw, &cache(), false, &t), not_found());
            assert_eq!(serve_path(base, raw, &cache(), true, &t), not_found());
        }
    }
}

#[test]
fn html_asset_is_composed() {
    let t = tree(vec![file("Frontend/pages/about.html", "{{ navbar }}about")]);
    assert_eq!(serve_path("Frontend/pages", "about.html", &cache(), false, &t), page("Nabout"));
}

#[test]
fn markdown_asset_is_composed_but_not_rendered() {
    let t = tree(vec![file("Data/note.md", "# x {{ head }}")]);
    assert_eq!(serve_path("Data", "note.md", &cache(), false, &t), page("# x H"));
}

#[test]
fn text_assets_are_not_composed() {
    let t = tree(vec![
        file("Frontend/static/site.css", "/* {{ head }} */"),
        file("Frontend/static/app.js", "let x = '{{ navbar }}';"),
        file("Frontend/static/data.json", "{\"a\":\"{{ footer }}\"}"),
        file("Frontend/static/readme.txt", "{{ head }}"),
    ]);
    let cases = [
        ("site.css", "text/css; charset=utf-8", "/* {{ head }} */"),
        ("app.js", "application/javascript; charset=utf-8", "let x = '{{ navbar }}';"),
        ("data.json", "application/json; charset=utf-8", "{\"a\":\"{{ footer }}\"}"),
        ("readme.txt", "text/plain; charset=utf-8", "{{ head }}"),
    ];
    for (name, mime, body) in cases {
        let doc = serve_path("Frontend/static", name, &cache(), false, &t);
        assert_eq!(doc.status, Status::Success);
        assert_eq!(doc.content_type, Some(mime.to_string()));
        assert_eq!(doc.body, Body::Text(body.to_string()));
    }
}

#[test]
fn binary_assets_pass_through() {
    let bytes = [0x89u8, 0x50, 0x4e, 0x47, 0xff, 0x00];
    let t = tree(vec![blob("Frontend/static/logo.png", &bytes), blob("Frontend/static/raw", &bytes)]);
    let doc = serve_path("Frontend/static", "logo.png", &cache(), false, &t);
    assert_eq!(doc.status, Status::Success);
    assert_eq!(doc.content_type, Some("image/png".to_string()));
    assert_eq!(doc.body, Body::Binary(bytes.to_vec()));
    let doc = serve_path("Frontend/static", "raw", &cache(), false, &t);
    assert_eq!(doc.content_type, Some("application/octet-stream".to_string()));
    assert_eq!(doc.body, Body::Binary(bytes.to_vec()));
}

#[test]
fn text_asset_that_is_not_text_is_not_found() {
    let t = tree(vec![blob("Frontend/static/site.css", &[0xff, 0xfe])]);
    assert_eq!(serve_path("Frontend/static", "site.css", &cache(), false, &t), not_found());
}

#[test]
fn live_mode_reads_fragments_from_disk() {
    let t = tree(vec![
        file("Frontend/pages/a.html", "{{ head }}|{{ navbar }}|{{ footer }}"),
        file("Frontend/components/head.html", "h2"),
        file("Frontend/components/footer.html", "f2"),
    ]);
    assert_eq!(
        serve_path("Frontend/pages", "a.html", &cache(), true, &t),
        page("h2|{{ navbar }}|f2")
    );
    assert_eq!(serve_path("Frontend/pages", "a.html", &cache(), false, &t), page("H|N|F"));
}

#[test]
fn live_mode_asks_for_each_fragment_in_order() {
    let c = cache();
    let (s, a) = Session::open("Frontend/pages", "a.html", true);
    assert_eq!(a, Action::IsDirectory("Frontend/pages/a.html".to_string()));
    let (s, a) = s.step(Event::Flag(false), &c);
    assert_eq!(a, Action::ReadText("Frontend/pages/a.html".to_string()));
    let (s, a) = s.step(Event::Text(Some("{{ head }}{{ footer }}".to_string())), &c);
    assert_eq!(a, Action::ReadText("Frontend/components/head.html".to_string()));
    let (s, a) = s.step(Event::Text(Some("1".to_string())), &c);
    assert_eq!(a, Action::ReadText("Frontend/components/navbar.html".to_string()));
    let (s, a) = s.step(Event::Text(None), &c);
    assert_eq!(a, Action::ReadText("Frontend/components/footer.html".to_string()));
    let (s, a) = s.step(Event::Text(Some("3".to_string())), &c);
    assert_eq!(a, Action::Respond(page("13")));
    let (_, a) = s.step(Event::Flag(true), &c);
    assert_eq!(a, Action::Respond(not_found()));
}

#[test]
fn directory_steps_in_order() {
    let c = cache();
    let (s, a) = Session::open("Data", "guide", false);
    assert_eq!(a, Action::IsDirectory("Data/guide".to_string()));
    let (s, a) = s.step(Event::Flag(true), &c);
    assert_eq!(a, Action::Exists("Data/guide/index.html".to_string()));
    let (s, a) = s.step(Event::Flag(false), &c);
    assert_eq!(a, Action::Exists("Data/guide/main.md".to_string()));
    let (s, a) = s.step(Event::Flag(true), &c);
    assert_eq!(a, Action::ReadText("Data/guide/main.md".to_string()));
    let (s, a) = s.step(Event::Text(Some("*hi*".to_string())), &c);
    assert_eq!(a, Action::ReadText("Frontend/static/wikishell.html".to_string()));
    let (_, a) = s.step(Event::Text(Some("{{ navbar }}{{ content }}".to_string())), &c);
    assert_eq!(a, Action::Respond(page("N<p><em>hi</em></p>\n")));
}

#[test]
fn binary_target_is_read_as_bytes() {
    let c = cache();
    let (s, _) = Session::open("Frontend/static", "logo.png", false);
    let (s, a) = s.step(Event::Flag(false), &c);
    assert_eq!(a, Action::ReadBytes("Frontend/static/logo.png".to_string()));
    let (_, a) = s.step(Event::Text(Some("text".to_string())), &c);
    assert_eq!(a, Action::Respond(not_found()));
}

#[test]
fn an_event_that_was_not_asked_for_ends_as_not_found() {
    let c = cache();
    let (s, _) = Session::open("Data", "x", false);
    let (_, a) = s.step(Event::Text(Some("x".to_string())), &c);
    assert_eq!(a, Action::Respond(not_found()));
}

#[test]
fn repeated_requests_give_identical_responses() {
    let t = tree(vec![
        dir("Data/"),
        file("Data/main.md", "# T\n\n| a |\n|---|\n| 1 |\n\nnote[^1]\n\n[^1]: foot\n"),
        file("Frontend/static/wikishell.html", "{{ head }}{{ content }}{{ footer }}"),
        file("Frontend/components/head.html", "<head/>"),
        blob("Data/x.bin", &[1, 2, 3]),
    ]);
    for live in [false, true] {
        for raw in ["", "x.bin", "missing", "../up"] {
            let first = serve_path("Data", raw, &cache(), live, &t);
            let second = serve_path("Data", raw, &cache(), live, &t);
            assert_eq!(first, second);
        }
    }
}

#[test]
fn folders_are_counted_without_files() {
    let entries = vec![
        DirEntry { name: Some("A".to_string()), directory: true },
        DirEntry { name: Some("readme.txt".to_string()), directory: false },
        DirEntry { name: Some("B".to_string()), directory: true },
    ];
    let list = count_folders(&entries);
    assert_eq!(list.folders, vec!["A".to_string(), "B".to_string()]);
    assert_eq!(list.count, 2);
}

#[test]
fn folders_without_a_name_are_left_out() {
    let entries = vec![
        DirEntry { name: None, directory: true },
        DirEntry { name: Some("A".to_string()), directory: true },
    ];
    let list = count_folders(&entries);
    assert_eq!(list.folders, vec!["A".to_string()]);
    assert_eq!(list.count, 1);
    assert_eq!(count_folders(&vec![]).count, 0);
}

#[test]
fn unreadable_root_is_a_server_error() {
    let report = folder_report(&None);
    let doc = report.unwrap_err();
    assert_eq!(doc.status, Status::ServerError);
    assert_eq!(doc.body, Body::Text("Failed to read data directory".to_string()));
    let report = folder_report(&Some(vec![DirEntry { name: Some("A".to_string()), directory: true }]));
    assert_eq!(report.unwrap().count, 1);
}

#[test]
fn url_paths_are_routed_to_their_roots() {
    assert_eq!(base_directory(Root::Content), "Data");
    assert_eq!(base_directory(Root::Assets), "Frontend/static");
    assert_eq!(base_directory(Root::Pages), "Frontend/pages");
    assert_eq!(request_path(Root::Content, "/wiki/guide/a.md"), "guide/a.md");
    assert_eq!(request_path(Root::Content, "/wiki/"), "");
    assert_eq!(request_path(Root::Content, "/wiki"), "");
    assert_eq!(request_path(Root::Content, "/wiki//x"), "/x");
    assert_eq!(request_path(Root::Assets, "/static/css/site.css"), "css/site.css");
    assert_eq!(request_path(Root::Assets, "/static///logo.png"), "logo.png");
    assert_eq!(request_path(Root::Assets, "/other/logo.png"), "other/logo.png");
    assert_eq!(request_path(Root::Assets, "/static/"), "");
    assert_eq!(request_path(Root::Pages, "/about.html"), "about.html");
    assert_eq!(request_path(Root::Pages, "/"), "");
    assert_eq!(request_path(Root::Pages, "about.html"), "");
    assert_eq!(request_path(Root::Pages, "//etc/passwd"), "/etc/passwd");
}

#[test]
fn routed_requests_are_served() {
    let t = tree(vec![
        dir("Frontend/pages/"),
        file("Frontend/pages/index.html", "{{ head }}home"),
        file("Frontend/static/site.css", "body {}"),
    ]);
    let c = cache();
    let path = request_path(Root::Pages, "/");
    assert_eq!(serve_path(base_directory(Root::Pages), &path, &c, false, &t), page("Hhome"));
    let path = request_path(Root::Assets, "/static/site.css");
    let doc = serve_path(base_directory(Root::Assets), &path, &c, false, &t);
    assert_eq!(doc.body, Body::Text("body {}".to_string()));
    let path = request_path(Root::Pages, "//etc/passwd");
    assert_eq!(serve_path(base_directory(Root::Pages), &path, &c, false, &t), forbidden());
}
