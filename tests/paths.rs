use pathlib::concrete::ConcretePath;
use pathlib::kind::{FileKind, SpecialKind, Support};
use pathlib::model::PathError;
use pathlib::open::{AccessFlags, ConcretePathOpen, OpenMode};
use pathlib::path::PurePath;

fn p(s: &str) -> PurePath {
    PurePath::parse(s)
}

fn text(r: Result<PurePath, PathError>) -> String {
    r.unwrap().as_posix()
}

#[test]
fn it_works() {
    assert_eq!(2 + 2, 4);
    assert_eq!(PurePath::new().as_posix(), ".");
}

#[test]
fn parse_drops_empty_and_dot_components() {
    assert_eq!(p("a//b/./c/").parts(), vec!["a", "b", "c"]);
    assert_eq!(p("/a/b").parts(), vec!["/", "a", "b"]);
    assert_eq!(p("./a/..").parts(), vec!["a", ".."]);
    assert!(p("").parts().is_empty());
    assert!(p(".").parts().is_empty());
    assert_eq!(p("/").parts(), vec!["/"]);
}

#[test]
fn render_of_edge_paths() {
    assert_eq!(p("").as_posix(), ".");
    assert_eq!(p("/").as_posix(), "/");
    assert_eq!(p("//x///y/").as_posix(), "/x/y");
    assert_eq!(p("a/b").as_posix(), "a/b");
}

#[test]
fn equality_is_structural() {
    assert!(p("/a/b") == p("/a//b/"));
    assert!(p("/a/b") != p("a/b"));
    assert!(p("/a/b") != p("/a/c"));
    assert!(p("/a") != p("/a/b"));
    assert!(p("") == PurePath::new());
}

#[test]
fn name_stem_suffix() {
    let x = p("/a/b/c.tar.gz");
    assert_eq!(x.name().unwrap(), "c.tar.gz");
    assert_eq!(x.stem().unwrap(), "c.tar");
    assert_eq!(x.suffix().unwrap(), ".gz");
    assert_eq!(x.suffixes(), vec![".tar", ".gz"]);
    assert_eq!(p("/").name(), None);
    assert_eq!(p("").stem(), None);
    assert_eq!(p("").suffix(), None);
    assert!(p("/").suffixes().is_empty());
    assert_eq!(p("notes.").suffix(), None);
    assert_eq!(p("notes.").stem().unwrap(), "notes.");
    assert_eq!(p("plain").suffix(), None);
}

#[test]
fn hidden_name_has_no_suffix() {
    let x = p("/home/u/.hidden");
    assert_eq!(x.stem().unwrap(), ".hidden");
    assert_eq!(x.suffix(), None);
    assert!(x.suffixes().is_empty());
    assert_eq!(p(".hidden.txt").suffix().unwrap(), ".txt");
    assert_eq!(p(".hidden.txt").stem().unwrap(), ".hidden");
}

#[test]
fn parent_and_parents() {
    assert_eq!(p("/a/b/c").parent().unwrap().as_posix(), "/a/b");
    assert_eq!(p("a").parent().unwrap().as_posix(), ".");
    assert!(p("/").parent().is_none());
    assert!(p("").parent().is_none());
    let ps: Vec<String> = p("/a/b/c").parents().iter().map(|x| x.as_posix()).collect();
    assert_eq!(ps, vec!["/a/b", "/a", "/"]);
    let rs: Vec<String> = p("a/b").parents().iter().map(|x| x.as_posix()).collect();
    assert_eq!(rs, vec!["a", "."]);
    assert!(p("/").parents().is_empty());
}

#[test]
fn join_appends_or_replaces() {
    assert_eq!(p("/a").join(&p("b/c")).as_posix(), "/a/b/c");
    assert_eq!(p("/a").join(&p("/x")).as_posix(), "/x");
    assert_eq!(p("a").join(&p("")).as_posix(), "a");
    assert_eq!(p("").join(&p("b")).as_posix(), "b");
}

#[test]
fn join_then_relative_to_gives_back_the_relative_path() {
    let base = p("/srv/data");
    let q = p("x/y.txt");
    let r = base.join(&q).relative_to(&base).unwrap();
    assert!(r == q);
    assert_eq!(r.as_posix(), "x/y.txt");
    let e = p("").join(&p("")).relative_to(&p("")).unwrap();
    assert_eq!(e.as_posix(), ".");
}

#[test]
fn relative_to_not_a_prefix() {
    assert_eq!(p("/a/c/d").relative_to(&p("/a/b")).err(), Some(PathError::NotAPrefix));
    assert_eq!(p("a/b").relative_to(&p("/a")).err(), Some(PathError::NotAPrefix));
    assert_eq!(p("/a").relative_to(&p("/a/b")).err(), Some(PathError::NotAPrefix));
    assert_eq!(p("/ab/c").relative_to(&p("/a")).err(), Some(PathError::NotAPrefix));
    assert_eq!(text(p("/a/b/c").relative_to(&p("/a"))), "b/c");
    assert_eq!(text(p("/a/b").relative_to(&p("/a/b"))), ".");
    assert_eq!(p("/a").relative_to(&p("b")).err(), Some(PathError::NotAPrefix));
    assert_eq!(p("").relative_to(&p("/")).err(), Some(PathError::NotAPrefix));
    assert_eq!(text(p("/").relative_to(&p("/"))), ".");
}

#[test]
fn relative_to_empty_base_keeps_path() {
    assert_eq!(text(p("/a").relative_to(&p(""))), "/a");
    assert_eq!(text(p("/").relative_to(&p("."))), "/");
    assert_eq!(text(p("a/b").relative_to(&p(""))), "a/b");
    assert_eq!(text(p("").relative_to(&p(""))), ".");
}

#[test]
fn with_name_replaces_final_component() {
    assert_eq!(text(p("/a/b/c.txt").with_name("d.txt")), "/a/b/d.txt");
    assert_eq!(p("/").with_name("x").err(), Some(PathError::NoName));
    assert_eq!(p("").with_name("x").err(), Some(PathError::NoName));
    assert_eq!(p("a").with_name("x/y").err(), Some(PathError::InvalidName));
    assert_eq!(p("a").with_name("").err(), Some(PathError::InvalidName));
    assert_eq!(p("a").with_name(".").err(), Some(PathError::InvalidName));
}

#[test]
fn with_suffix_replaces_final_suffix() {
    assert_eq!(text(p("/a/b/c.tar.gz").with_suffix(".bz2")), "/a/b/c.tar.bz2");
    assert_eq!(text(p("/a/b/c").with_suffix(".txt")), "/a/b/c.txt");
    assert_eq!(text(p("/a/b/c.txt").with_suffix("")), "/a/b/c");
    assert_eq!(text(p(".hidden").with_suffix(".x")), ".hidden.x");
    assert_eq!(p("/a/c.txt").with_suffix("bz2").err(), Some(PathError::InvalidSuffix));
    assert_eq!(p("/a/c.txt").with_suffix(".").err(), Some(PathError::InvalidSuffix));
    assert_eq!(p("/a/c.txt").with_suffix(".a/b").err(), Some(PathError::InvalidSuffix));
    assert_eq!(p("/").with_suffix(".txt").err(), Some(PathError::NoName));
    assert_eq!(p("..x").with_suffix("").err(), Some(PathError::InvalidName));
}

#[test]
fn with_own_suffix_keeps_stem() {
    for s in ["/x/archive.tar.gz", "a.b", "/q/.cfg.json", "d/r..s"] {
        let x = p(s);
        let suffix = x.suffix().unwrap();
        let y = x.with_suffix(&suffix).unwrap();
        assert_eq!(y.stem(), x.stem());
        assert!(y == x);
    }
}

#[test]
fn anchor_root_drive() {
    assert_eq!(p("/a").anchor().unwrap(), "/");
    assert_eq!(p("/").root().unwrap(), "/");
    assert_eq!(p("a").anchor(), None);
    assert_eq!(p("a").root(), None);
    assert_eq!(p("").root(), None);
    assert_eq!(p("/a").drive(), None);
    assert!(p("/a").is_absolute());
    assert!(!p("a").is_absolute());
}

#[test]
fn file_uri() {
    assert_eq!(p("/a/b c").as_uri().unwrap(), "file:///a/b%20c");
    assert_eq!(p("/").as_uri().unwrap(), "file:///");
    assert_eq!(p("a/b").as_uri().err(), Some(PathError::NotAbsolute));
}

#[test]
fn opener_configuration() {
    let o = ConcretePathOpen::new(p("/tmp/f"));
    assert_eq!(o.mode, OpenMode::Read);
    assert_eq!(o.buffering, -1);
    assert_eq!(o.capacity(), None);
    let o = o.buffering(4096).mode(OpenMode::Append);
    assert_eq!(o.capacity(), Some(4096));
    assert_eq!(o.mode, OpenMode::Append);
    assert_eq!(o.path.as_posix(), "/tmp/f");
    assert_eq!(o.buffering(0).capacity(), Some(0));
}

#[test]
fn opener_access_flags() {
    let f = |m: OpenMode| ConcretePathOpen::new(PurePath::new()).mode(m).access();
    assert_eq!(f(OpenMode::Read), AccessFlags { read: true, write: false, append: false, create: false, truncate: false });
    assert_eq!(f(OpenMode::Write), AccessFlags { read: false, write: true, append: false, create: true, truncate: true });
    assert_eq!(f(OpenMode::Append), AccessFlags { read: false, write: false, append: true, create: true, truncate: false });
    assert_eq!(f(OpenMode::ReadWrite), AccessFlags { read: true, write: true, append: false, create: false, truncate: false });
}

#[test]
fn concrete_path_opens_itself() {
    let c = ConcretePath::parse("/var//log/x.log");
    assert_eq!(c.as_pure().as_posix(), "/var/log/x.log");
    let o = c.open();
    assert!(o.path == *c.as_pure());
    assert_eq!(o.mode, OpenMode::Read);
    assert_eq!(o.buffering, -1);
    assert_eq!(ConcretePath::new(p("a")).as_pure().name().unwrap(), "a");
}

#[test]
fn special_kinds_report_support() {
    assert_eq!(FileKind::Fifo.is_special(SpecialKind::Fifo, true), Support::Supported(true));
    assert_eq!(FileKind::File.is_special(SpecialKind::Socket, true), Support::Supported(false));
    assert_eq!(FileKind::BlockDevice.is_special(SpecialKind::CharDevice, true), Support::Supported(false));
    assert_eq!(FileKind::BlockDevice.is_special(SpecialKind::BlockDevice, false), Support::Unsupported);
    assert!(FileKind::Symlink.is_symlink());
    assert!(!FileKind::File.is_symlink());
}

#[test]
fn parse_of_rendered_text_gives_path_back() {
    for s in ["/a/b/c.txt", "/", "", "a//b/", "./x/../y", "..."] {
        let x = p(s);
        assert!(PurePath::parse(&x.as_posix()) == x);
    }
}

#[test]
fn with_single_suffix_sets_suffix_and_keeps_stem() {
    for s in ["/a/b/c.tar.gz", "/a/plain", ".hidden", "x/notes."] {
        let x = p(s);
        let y = x.with_suffix(".md").unwrap();
        assert_eq!(y.suffix().unwrap(), ".md");
        assert_eq!(y.stem(), x.stem());
    }
}
