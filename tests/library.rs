use cue::archive::{
    is_category_dir, is_hidden, sound_of_entry, split_extension, ArchiveError, AudioFormat, Category,
    DirEntry,
    SoundArchive, SoundFile,
};
use cue::config::{expand_tilde, Config};
use cue::suppression::{check_names, SuppressionResult};

fn sound(name: &str, path: &str, format: AudioFormat) -> SoundFile {
    SoundFile { name: name.to_string(), path: path.to_string(), format }
}

fn alerts() -> Category {
    Category {
        name: "alerts".to_string(),
        path: "/lib/alerts".to_string(),
        sounds: vec![
            sound("Bell", "/lib/alerts/Bell.wav", AudioFormat::Wav),
            sound("chime", "/lib/alerts/chime.mp3", AudioFormat::Mp3),
        ],
    }
}

#[test]
fn extensions_in_any_case() {
    assert_eq!(AudioFormat::from_extension("MP3"), Some(AudioFormat::Mp3));
    assert_eq!(AudioFormat::from_extension("wav"), Some(AudioFormat::Wav));
    assert_eq!(AudioFormat::from_extension("Ogg"), Some(AudioFormat::Ogg));
    assert_eq!(AudioFormat::from_extension("FLAC"), Some(AudioFormat::Flac));
    assert_eq!(AudioFormat::from_extension("txt"), None);
    assert_eq!(AudioFormat::from_extension(""), None);
    assert_eq!(AudioFormat::from_lower_extension("MP3"), None);
}

#[test]
fn sound_lookup_ignores_case_and_extension() {
    let c = alerts();
    assert_eq!(c.sound("bell").unwrap().path, "/lib/alerts/Bell.wav");
    assert_eq!(c.sound("CHIME.MP3").unwrap().name, "chime");
    assert!(c.sound("gong").is_none());
}

#[test]
fn random_pick_comes_from_category() {
    let c = alerts();
    for _ in 0..10 {
        let s = c.random().unwrap();
        assert!(s.name == "Bell" || s.name == "chime");
    }
    let empty = Category { name: "e".to_string(), path: "/e".to_string(), sounds: vec![] };
    assert!(empty.random().is_none());
    assert_eq!(c.pick(1).unwrap().name, "chime");
    assert!(c.pick(2).is_none());
}

#[test]
fn category_lookup_and_names() {
    let archive = SoundArchive {
        path: "/lib".to_string(),
        categories: vec![
            alerts(),
            Category { name: "done".to_string(), path: "/lib/done".to_string(), sounds: vec![] },
        ],
    };
    assert_eq!(archive.category("ALERTS").unwrap().path, "/lib/alerts");
    assert!(archive.category("missing").is_none());
    assert_eq!(archive.category_names(), vec!["alerts", "done"]);
}

#[test]
fn tilde_expansion() {
    assert_eq!(expand_tilde("~/sounds", "/home/u"), "/home/u/sounds");
    assert_eq!(expand_tilde("~", "/home/u"), "/home/u");
    assert_eq!(expand_tilde("/srv/sounds", "/home/u"), "/srv/sounds");
    assert_eq!(expand_tilde("~other", "/home/u"), "~other");
}

#[test]
fn sounds_path_precedence() {
    assert_eq!(Config::resolve(Some("~/env"), Some("/file"), "/h").sounds_path, "/h/env");
    assert_eq!(Config::resolve(Some(""), Some("/file"), "/h").sounds_path, "/file");
    assert_eq!(Config::resolve(None, Some("~/f"), "/h").sounds_path, "/h/f");
    assert_eq!(Config::resolve(None, None, "/h").sounds_path, "/h/.cue/sounds");
}

#[test]
fn blocklist_matching() {
    let names = vec!["bash".to_string(), "Zoom.us".to_string(), "zoom".to_string()];
    let block = vec!["ZOOM".to_string()];
    match check_names(&names, &block) {
        SuppressionResult::Blocked { app_name } => assert_eq!(app_name, "Zoom.us"),
        SuppressionResult::Clear => panic!("expected a block"),
    }
    assert!(matches!(check_names(&names, &vec!["teams".to_string()]), SuppressionResult::Clear));
    assert!(matches!(check_names(&vec![], &block), SuppressionResult::Clear));
}

fn entry(name: &str, path: &str, is_dir: bool) -> DirEntry {
    DirEntry { name: Some(name.to_string()), path: path.to_string(), is_dir, is_file: !is_dir }
}

#[test]
fn extension_split() {
    assert_eq!(split_extension("bell.wav"), ("bell", Some("wav")));
    assert_eq!(split_extension("a.b.mp3"), ("a.b", Some("mp3")));
    assert_eq!(split_extension("noext"), ("noext", None));
    assert_eq!(split_extension(".hidden"), (".hidden", None));
    assert_eq!(split_extension("trail."), ("trail", Some("")));
}

#[test]
fn entries_to_sounds() {
    let s = sound_of_entry(&entry("Bell.WAV", "/l/a/Bell.WAV", false)).unwrap();
    assert_eq!((s.name.as_str(), s.format), ("Bell", AudioFormat::Wav));
    assert!(sound_of_entry(&entry(".x.mp3", "/l/a/.x.mp3", false)).is_none());
    assert!(sound_of_entry(&entry("notes.txt", "/l/a/notes.txt", false)).is_none());
    assert!(sound_of_entry(&entry("dir.mp3", "/l/a/dir.mp3", true)).is_none());
    let odd = DirEntry { name: None, path: "/l/a/x".to_string(), is_dir: false, is_file: true };
    assert!(sound_of_entry(&odd).is_none());
}

#[test]
fn hidden_and_category_entries() {
    assert!(is_hidden(&entry(".git", "/l/.git", true)));
    assert!(!is_category_dir(&entry(".git", "/l/.git", true)));
    assert!(is_category_dir(&entry("Alerts", "/l/Alerts", true)));
    assert!(!is_category_dir(&entry("readme.md", "/l/readme.md", false)));
}

#[test]
fn library_indexing_sorts_and_filters() {
    let dirs = vec![
        (
            entry("Zeta", "/l/Zeta", true),
            vec![
                entry("b.mp3", "/l/Zeta/b.mp3", false),
                entry("A.wav", "/l/Zeta/A.wav", false),
                entry("c.txt", "/l/Zeta/c.txt", false),
                entry(".d.ogg", "/l/Zeta/.d.ogg", false),
            ],
        ),
        (entry("alpha", "/l/alpha", true), vec![entry("x.flac", "/l/alpha/x.flac", false)]),
        (entry(".hidden", "/l/.hidden", true), vec![]),
        (entry("file.mp3", "/l/file.mp3", false), vec![]),
    ];
    let archive = SoundArchive::from_listing("/l".to_string(), dirs);
    assert_eq!(archive.category_names(), vec!["alpha", "zeta"]);
    let zeta = archive.category("ZETA").unwrap();
    let names: Vec<&str> = zeta.sounds.iter().map(|s| s.name.as_str()).collect();
    assert_eq!(names, vec!["A", "b"]);
    assert_eq!(zeta.path, "/l/Zeta");
}

#[test]
fn command_lookups_report_errors() {
    let archive = SoundArchive {
        path: "/lib".to_string(),
        categories: vec![
            alerts(),
            Category { name: "done".to_string(), path: "/lib/done".to_string(), sounds: vec![] },
        ],
    };
    assert!(archive.random_sound("Alerts").is_ok());
    match archive.random_sound("nope") {
        Err(ArchiveError::CategoryNotFound(c)) => assert_eq!(c, "nope"),
        _ => panic!("expected CategoryNotFound"),
    }
    match archive.random_sound("DONE") {
        Err(ArchiveError::EmptyCategory(c)) => assert_eq!(c, "DONE"),
        _ => panic!("expected EmptyCategory"),
    }
    assert_eq!(archive.find_sound("alerts", "CHIME").unwrap().name, "chime");
    match archive.find_sound("alerts", "gong") {
        Err(ArchiveError::SoundNotFound(m)) => assert_eq!(m, "'gong' in category 'alerts'"),
        _ => panic!("expected SoundNotFound"),
    }
}
