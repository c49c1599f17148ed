//! The sound library: categories of sound files, and lookups in them.
use vstd::prelude::*;
use crate::text::{lowercase, lower_of, file_name, path_file_name, str_eq};
use crate::ordering::{sort_by_key, keys_sorted, seq_le};

verus! {

/// Errors of loading the library and looking sounds up in it.
#[derive(Debug, Clone)]
pub enum ArchiveError {
    NotFound(String),
    NotDirectory(String),
    ReadError(String),
    CategoryNotFound(String),
    EmptyCategory(String),
    SoundNotFound(String),
}

/// The audio formats that are played.
#[derive(Debug, Clone, Copy, PartialEq, Eq, Structural)]
pub enum AudioFormat {
    Mp3,
    Wav,
    Ogg,
    Flac,
}

/// The format named by a lower-case file extension.
pub open spec fn format_of(ext: Seq<char>) -> Option<AudioFormat> {
    if ext == "mp3"@ {
        Some(AudioFormat::Mp3)
    } else if ext == "wav"@ {
        Some(AudioFormat::Wav)
    } else if ext == "ogg"@ {
        Some(AudioFormat::Ogg)
    } else if ext == "flac"@ {
        Some(AudioFormat::Flac)
    } else {
        None
    }
}

impl AudioFormat {
    /// The format of a file extension, in any letter case (`MP3`, `wav`, ...).
    pub fn from_extension(ext: &str) -> (r: Option<AudioFormat>)
        ensures
            r == format_of(lower_of(ext@)),
    {
        let l = lowercase(ext);
        AudioFormat::from_lower_extension(l.as_str())
    }

    /// The format of an extension already in lower case.
    pub fn from_lower_extension(ext: &str) -> (r: Option<AudioFormat>)
        ensures
            r == format_of(ext@),
    {
        if str_eq(ext, "mp3") {
            Some(AudioFormat::Mp3)
        } else if str_eq(ext, "wav") {
            Some(AudioFormat::Wav)
        } else if str_eq(ext, "ogg") {
            Some(AudioFormat::Ogg)
        } else if str_eq(ext, "flac") {
            Some(AudioFormat::Flac)
        } else {
            None
        }
    }
}

/// One playable file: its name without extension, its path and its format.
#[derive(Debug, Clone)]
pub struct SoundFile {
    pub name: String,
    pub path: String,
    pub format: AudioFormat,
}

/// A named group of sound files (a directory of the library).
#[derive(Debug, Clone)]
pub struct Category {
    pub name: String,
    pub path: String,
    pub sounds: Vec<SoundFile>,
}

/// A sound answers to a query when its name, or the file name of its path,
/// equals the query up to letter case.
pub open spec fn sound_matches(s: SoundFile, query: Seq<char>) -> bool {
    lower_of(s.name@) == lower_of(query) || match path_file_name(s.path@) {
        Some(f) => lower_of(f) == lower_of(query),
        None => false,
    }
}

pub open spec fn first_sound(sounds: Seq<SoundFile>, query: Seq<char>, i: int) -> bool {
    &&& 0 <= i < sounds.len()
    &&& sound_matches(sounds[i], query)
    &&& forall|j: int| 0 <= j < i ==> !sound_matches(#[trigger] sounds[j], query)
}

/// Relies on `rand::Rng::gen_range` with `rand::thread_rng`: a number below `n`.
#[verifier::external_body]
fn random_below(n: usize) -> (r: usize)
    requires
        n > 0,
    ensures
        r < n,
{
    rand::Rng::gen_range(&mut rand::thread_rng(), 0..n)
}

impl Category {
    /// The sound at a position, if there is one there.
    pub fn pick(&self, index: usize) -> (r: Option<&SoundFile>)
        ensures
            match r {
                Some(s) => index < self.sounds@.len() && *s == self.sounds@[index as int],
                None => index >= self.sounds@.len(),
            },
    {
        if index < self.sounds.len() {
            Some(&self.sounds[index])
        } else {
            None
        }
    }

    /// A sound of this category chosen at random; `None` when it holds none.
    pub fn random(&self) -> (r: Option<&SoundFile>)
        ensures
            match r {
                Some(s) => exists|i: int| 0 <= i < self.sounds@.len() && *s == self.sounds@[i],
                None => self.sounds@.len() == 0,
            },
    {
        if self.sounds.len() == 0 {
            return None;
        }
        let i = random_below(self.sounds.len());
        self.pick(i)
    }

    /// The first sound whose name, or file name with its extension, equals `name`
    /// up to letter case.
    pub fn sound(&self, name: &str) -> (r: Option<&SoundFile>)
        ensures
            match r {
                Some(s) => exists|i: int| first_sound(self.sounds@, name@, i) && *s == self.sounds@[i],
                None => forall|j: int|
                    0 <= j < self.sounds@.len() ==> !sound_matches(#[trigger] self.sounds@[j], name@),
            },
    {
        let wanted = lowercase(name);
        let n = self.sounds.len();
        let mut i: usize = 0;
        while i < n
            invariant
                0 <= i <= n,
                n == self.sounds@.len(),
                wanted@ == lower_of(name@),
                forall|j: int| 0 <= j < i ==> !sound_matches(#[trigger] self.sounds@[j], name@),
            decreases n - i,
        {
            let s = &self.sounds[i];
            let by_name = lowercase(s.name.as_str()) == wanted;
            let by_file = match file_name(s.path.as_str()) {
                Some(f) => lowercase(f.as_str()) == wanted,
                None => false,
            };
            if by_name || by_file {
                assert(first_sound(self.sounds@, name@, i as int));
                return Some(s);
            }
            i = i + 1;
        }
        None
    }
}


/// An entry of a directory as the file system lists it: its name (`None` where
/// the name is not valid UTF-8), its path, and whether it is a directory or a
/// regular file.
#[derive(Debug, Clone)]
pub struct DirEntry {
    pub name: Option<String>,
    pub path: String,
    pub is_dir: bool,
    pub is_file: bool,
}

pub open spec fn name_view(name: Option<String>) -> Option<Seq<char>> {
    match name {
        Some(n) => Some(n@),
        None => None,
    }
}

/// Hidden entries are those whose name starts with a dot.
pub open spec fn hidden_spec(name: Option<Seq<char>>) -> bool {
    match name {
        Some(n) => n.len() > 0 && n[0] == '.',
        None => false,
    }
}

/// Whether an entry is hidden.
pub fn is_hidden(e: &DirEntry) -> (r: bool)
    ensures
        r == hidden_spec(name_view(e.name)),
{
    match &e.name {
        Some(n) => n.as_str().unicode_len() > 0 && n.as_str().get_char(0) == '.',
        None => false,
    }
}

/// Whether an entry of the library's root is a category: a directory that is
/// not hidden.
pub fn is_category_dir(e: &DirEntry) -> (r: bool)
    ensures
        r == (!hidden_spec(name_view(e.name)) && e.is_dir),
{
    !is_hidden(e) && e.is_dir
}

/// Position of the last dot of a file name, or -1.
pub open spec fn last_dot(n: Seq<char>) -> int
    decreases n.len(),
{
    if n.len() == 0 {
        -1
    } else if n.last() == '.' {
        n.len() - 1
    } else {
        last_dot(n.drop_last())
    }
}

/// The extension of a file name: what follows its last dot, unless that dot
/// opens the name.
pub open spec fn extension_spec(n: Seq<char>) -> Option<Seq<char>> {
    if last_dot(n) > 0 {
        Some(n.subrange(last_dot(n) + 1, n.len() as int))
    } else {
        None
    }
}

/// The stem of a file name: what precedes its extension's dot.
pub open spec fn stem_spec(n: Seq<char>) -> Seq<char> {
    if last_dot(n) > 0 {
        n.subrange(0, last_dot(n))
    } else {
        n
    }
}

/// Split a file name into its stem and its extension, if it has one.
pub fn split_extension(n: &str) -> (r: (&str, Option<&str>))
    ensures
        r.0@ == stem_spec(n@),
        match r.1 {
            Some(x) => extension_spec(n@) == Some(x@),
            None => extension_spec(n@) is None,
        },
{
    let len = n.unicode_len();
    let mut i: usize = len;
    assert(n@.subrange(0, len as int) =~= n@);
    while i > 0 && n.get_char(i - 1) != '.'
        invariant
            len == n@.len(),
            0 <= i <= len,
            last_dot(n@.subrange(0, i as int)) == last_dot(n@),
        decreases i,
    {
        assert(n@.subrange(0, i as int).drop_last() =~= n@.subrange(0, i - 1));
        i = i - 1;
    }
    if i <= 1 {
        proof {
            if i == 1 {
                assert(n@.subrange(0, 1).last() == '.');
            }
        }
        (n, None)
    } else {
        assert(n@.subrange(0, i as int).last() == '.');
        (n.substring_char(0, i - 1), Some(n.substring_char(i, len)))
    }
}

/// The sound an entry of a category directory stands for, as (name, path,
/// format): a regular file, not hidden, whose extension names a format in any
/// letter case; its name is the file name without the extension.
pub open spec fn sound_spec(e: DirEntry) -> Option<(Seq<char>, Seq<char>, AudioFormat)> {
    if hidden_spec(name_view(e.name)) || !e.is_file {
        None
    } else {
        let ext = match e.name {
            Some(n) => match extension_spec(n@) {
                Some(x) => x,
                None => Seq::empty(),
            },
            None => Seq::empty(),
        };
        match format_of(lower_of(ext)) {
            Some(f) => Some(
                (
                    match e.name {
                        Some(n) => stem_spec(n@),
                        None => "unknown"@,
                    },
                    e.path@,
                    f,
                ),
            ),
            None => None,
        }
    }
}

pub open spec fn sound_view(s: SoundFile) -> (Seq<char>, Seq<char>, AudioFormat) {
    (s.name@, s.path@, s.format)
}

/// The sound an entry stands for, if any.
pub fn sound_of_entry(e: &DirEntry) -> (r: Option<SoundFile>)
    ensures
        match r {
            Some(s) => sound_spec(*e) == Some(sound_view(s)),
            None => sound_spec(*e) is None,
        },
{
    if is_hidden(e) || !e.is_file {
        return None;
    }
    let (stem, ext) = match &e.name {
        Some(n) => {
            let (stem, ext) = split_extension(n.as_str());
            (stem, match ext {
                Some(x) => x,
                None => "",
            })
        },
        None => ("unknown", ""),
    };
    proof {
        reveal_strlit("");
        reveal_strlit("unknown");
        assert(""@ =~= Seq::<char>::empty());
    }
    match AudioFormat::from_extension(ext) {
        Some(format) => Some(
            SoundFile { name: String::from_str(stem), path: e.path.clone(), format },
        ),
        None => None,
    }
}

/// How many entries of a listing stand for sounds.
pub open spec fn count_sounds(files: Seq<DirEntry>) -> nat
    decreases files.len(),
{
    if files.len() == 0 {
        0
    } else {
        count_sounds(files.drop_last()) + if sound_spec(files.last()) is Some {
            1nat
        } else {
            0nat
        }
    }
}

/// The sound of some entry of a listing.
pub open spec fn from_listing(files: Seq<DirEntry>, s: SoundFile) -> bool {
    exists|j: int| 0 <= j < files.len() && sound_spec(#[trigger] files[j]) == Some(sound_view(s))
}

/// Sounds in order of their names, compared in lower case.
pub open spec fn sounds_sorted(sounds: Seq<SoundFile>) -> bool {
    forall|i: int|
        0 <= i < sounds.len() - 1 ==> seq_le(
            lower_of(#[trigger] sounds[i].name@),
            lower_of(sounds[i + 1].name@),
        )
}

/// Index a category directory: its name in lower case (`unknown` where it is not
/// valid UTF-8), and the sounds of its entries, ordered by name in lower case.
pub fn category_of(dir: &DirEntry, files: &Vec<DirEntry>) -> (r: Category)
    ensures
        r.name@ == lower_of(
            match dir.name {
                Some(n) => n@,
                None => "unknown"@,
            },
        ),
        r.path@ == dir.path@,
        r.sounds@.len() == count_sounds(files@),
        forall|k: int| 0 <= k < r.sounds@.len() ==> from_listing(files@, #[trigger] r.sounds@[k]),
        sounds_sorted(r.sounds@),
{
    broadcast use vstd::seq_lib::group_to_multiset_ensures;

    let name = match &dir.name {
        Some(n) => lowercase(n.as_str()),
        None => lowercase("unknown"),
    };
    let mut keyed: Vec<(String, SoundFile)> = Vec::new();
    let n = files.len();
    let mut i: usize = 0;
    while i < n
        invariant
            0 <= i <= n,
            n == files@.len(),
            keyed@.len() == count_sounds(files@.subrange(0, i as int)),
            forall|k: int|
                0 <= k < keyed@.len() ==> from_listing(files@, (#[trigger] keyed@[k]).1) && keyed@[k].0@
                    == lower_of(keyed@[k].1.name@),
        decreases n - i,
    {
        assert(files@.subrange(0, i + 1).drop_last() =~= files@.subrange(0, i as int));
        match sound_of_entry(&files[i]) {
            Some(s) => {
                let key = lowercase(s.name.as_str());
                assert(from_listing(files@, s));
                keyed.push((key, s));
            },
            None => {},
        }
        i = i + 1;
    }
    assert(files@.subrange(0, n as int) =~= files@);
    let ghost before = keyed@;
    let sorted = sort_by_key(keyed);
    let mut sounds: Vec<SoundFile> = Vec::new();
    let m = sorted.len();
    let mut k: usize = 0;
    proof {
        assert(sorted@.len() == before.len()) by {
            assert(sorted@.to_multiset().len() == before.to_multiset().len());
        }
    }
    let mut rest = sorted;
    let ghost all = rest@;
    while k < m
        invariant
            0 <= k <= m,
            m == all.len(),
            m == count_sounds(files@),
            all.to_multiset() == before.to_multiset(),
            keys_sorted(all),
            rest@ == all.subrange(k as int, m as int),
            sounds@.len() == k,
            forall|q: int| 0 <= q < k ==> sounds@[q] == (#[trigger] all[q]).1,
            forall|q: int|
                0 <= q < before.len() ==> from_listing(files@, (#[trigger] before[q]).1) && before[q].0@
                    == lower_of(before[q].1.name@),
        decreases m - k,
    {
        let item = rest.remove(0);
        assert(rest@ =~= all.subrange(k + 1, m as int));
        sounds.push(item.1);
        k = k + 1;
    }
    proof {
        assert forall|q: int| 0 <= q < m implies from_listing(files@, (#[trigger] all[q]).1)
            && all[q].0@ == lower_of(all[q].1.name@) by {
            assert(all.contains(all[q]));
            assert(all.to_multiset().count(all[q]) > 0);
            assert(before.to_multiset().count(all[q]) > 0);
            assert(before.contains(all[q]));
        }
        assert forall|q: int| 0 <= q < sounds@.len() - 1 implies seq_le(
            lower_of(#[trigger] sounds@[q].name@),
            lower_of(sounds@[q + 1].name@),
        ) by {
            assert(seq_le(all[q].0@, all[q + 1].0@));
            assert(all.contains(all[q]));
            assert(all.to_multiset().count(all[q]) > 0);
            assert(before.to_multiset().count(all[q]) > 0);
            assert(all.contains(all[q + 1]));
            assert(all.to_multiset().count(all[q + 1]) > 0);
            assert(before.to_multiset().count(all[q + 1]) > 0);
        }
        assert forall|q: int| 0 <= q < sounds@.len() implies from_listing(files@, #[trigger] sounds@[q]) by {
            assert(sounds@[q] == all[q].1);
        }
    }
    Category { name, path: dir.path.clone(), sounds }
}

/// The indexed library: its root directory and its categories.
#[derive(Debug)]
pub struct SoundArchive {
    pub path: String,
    pub categories: Vec<Category>,
}

pub open spec fn first_category(cats: Seq<Category>, lowered: Seq<char>, i: int) -> bool {
    &&& 0 <= i < cats.len()
    &&& cats[i].name@ == lowered
    &&& forall|j: int| 0 <= j < i ==> (#[trigger] cats[j]).name@ != lowered
}


/// How many entries of the root are categories.
pub open spec fn count_categories(dirs: Seq<(DirEntry, Vec<DirEntry>)>) -> nat
    decreases dirs.len(),
{
    if dirs.len() == 0 {
        0
    } else {
        count_categories(dirs.drop_last()) + if !hidden_spec(name_view(dirs.last().0.name))
            && dirs.last().0.is_dir {
            1nat
        } else {
            0nat
        }
    }
}

/// A category indexed from some category directory of the root listing.
pub open spec fn category_from(dirs: Seq<(DirEntry, Vec<DirEntry>)>, c: Category) -> bool {
    exists|j: int|
        0 <= j < dirs.len() && !hidden_spec(name_view((#[trigger] dirs[j]).0.name)) && dirs[j].0.is_dir
            && c.path@ == dirs[j].0.path@ && c.name@ == lower_of(
            match dirs[j].0.name {
                Some(n) => n@,
                None => "unknown"@,
            },
        ) && c.sounds@.len() == count_sounds(dirs[j].1@) && sounds_sorted(c.sounds@)
    }

impl SoundArchive {
    /// Index a library from the listing of its root: each entry with, for a
    /// category directory, the listing of that directory. Categories are ordered
    /// by name.
    pub fn from_listing(path: String, dirs: Vec<(DirEntry, Vec<DirEntry>)>) -> (r: SoundArchive)
        ensures
            r.path@ == path@,
            r.categories@.len() == count_categories(dirs@),
            forall|k: int|
                0 <= k < r.categories@.len() ==> category_from(dirs@, #[trigger] r.categories@[k]),
            forall|k: int|
                0 <= k < r.categories@.len() - 1 ==> seq_le(
                    (#[trigger] r.categories@[k]).name@,
                    r.categories@[k + 1].name@,
                ),
    {
        broadcast use vstd::seq_lib::group_to_multiset_ensures;

        let mut keyed: Vec<(String, Category)> = Vec::new();
        let n = dirs.len();
        let mut i: usize = 0;
        while i < n
            invariant
                0 <= i <= n,
                n == dirs@.len(),
                keyed@.len() == count_categories(dirs@.subrange(0, i as int)),
                forall|k: int|
                    0 <= k < keyed@.len() ==> category_from(dirs@, (#[trigger] keyed@[k]).1)
                        && keyed@[k].0@ == keyed@[k].1.name@,
            decreases n - i,
        {
            assert(dirs@.subrange(0, i + 1).drop_last() =~= dirs@.subrange(0, i as int));
            let (entry, files) = (&dirs[i].0, &dirs[i].1);
            if is_category_dir(entry) {
                let c = category_of(entry, files);
                let key = c.name.clone();
                assert(category_from(dirs@, c)) by {
                    assert(!hidden_spec(name_view(dirs@[i as int].0.name)));
                }
                keyed.push((key, c));
            }
            i = i + 1;
        }
        assert(dirs@.subrange(0, n as int) =~= dirs@);
        let ghost before = keyed@;
        let sorted = sort_by_key(keyed);
        proof {
            assert(sorted@.len() == before.len()) by {
                assert(sorted@.to_multiset().len() == before.to_multiset().len());
            }
        }
        let mut categories: Vec<Category> = Vec::new();
        let m = sorted.len();
        let mut k: usize = 0;
        let mut rest = sorted;
        let ghost all = rest@;
        while k < m
            invariant
                0 <= k <= m,
                m == all.len(),
                m == count_categories(dirs@),
                all.to_multiset() == before.to_multiset(),
                keys_sorted(all),
                rest@ == all.subrange(k as int, m as int),
                categories@.len() == k,
                forall|q: int| 0 <= q < k ==> categories@[q] == (#[trigger] all[q]).1,
            decreases m - k,
        {
            let item = rest.remove(0);
            assert(rest@ =~= all.subrange(k + 1, m as int));
            categories.push(item.1);
            k = k + 1;
        }
        proof {
            assert forall|q: int| 0 <= q < m implies category_from(dirs@, (#[trigger] all[q]).1)
                && all[q].0@ == all[q].1.name@ by {
                assert(all.contains(all[q]));
                assert(all.to_multiset().count(all[q]) > 0);
                assert(before.to_multiset().count(all[q]) > 0);
                assert(before.contains(all[q]));
            }
            assert forall|q: int| 0 <= q < categories@.len() - 1 implies seq_le(
                (#[trigger] categories@[q]).name@,
                categories@[q + 1].name@,
            ) by {
                assert(seq_le(all[q].0@, all[q + 1].0@));
                assert(all.contains(all[q]));
                assert(all.to_multiset().count(all[q]) > 0);
                assert(before.to_multiset().count(all[q]) > 0);
                assert(all.contains(all[q + 1]));
                assert(all.to_multiset().count(all[q + 1]) > 0);
                assert(before.to_multiset().count(all[q + 1]) > 0);
            }
            assert forall|q: int| 0 <= q < categories@.len() implies category_from(
                dirs@,
                #[trigger] categories@[q],
            ) by {
                assert(categories@[q] == all[q].1);
            }
        }
        SoundArchive { path, categories }
    }
    /// The first category whose name equals `name` in lower case (category names
    /// are stored in lower case).
    pub fn category(&self, name: &str) -> (r: Option<&Category>)
        ensures
            match r {
                Some(c) => exists|i: int|
                    first_category(self.categories@, lower_of(name@), i) && *c == self.categories@[i],
                None => forall|j: int|
                    0 <= j < self.categories@.len() ==> (#[trigger] self.categories@[j]).name@
                        != lower_of(name@),
            },
    {
        let wanted = lowercase(name);
        let n = self.categories.len();
        let mut i: usize = 0;
        while i < n
            invariant
                0 <= i <= n,
                n == self.categories@.len(),
                wanted@ == lower_of(name@),
                forall|j: int|
                    0 <= j < i ==> (#[trigger] self.categories@[j]).name@ != lower_of(name@),
            decreases n - i,
        {
            let c = &self.categories[i];
            if c.name == wanted {
                assert(first_category(self.categories@, lower_of(name@), i as int));
                return Some(c);
            }
            i = i + 1;
        }
        None
    }

    /// A random sound of the category `category` (matched as `category` does):
    /// `CategoryNotFound` or `EmptyCategory`, with the name as given, where there
    /// is none.
    pub fn random_sound(&self, category: &str) -> (r: Result<&SoundFile, ArchiveError>)
        ensures
            match r {
                Ok(s) => exists|i: int, k: int|
                    first_category(self.categories@, lower_of(category@), i) && 0 <= k
                        < self.categories@[i].sounds@.len() && *s == self.categories@[i].sounds@[k],
                Err(ArchiveError::CategoryNotFound(c)) => c@ == category@ && forall|j: int|
                    0 <= j < self.categories@.len() ==> (#[trigger] self.categories@[j]).name@
                        != lower_of(category@),
                Err(ArchiveError::EmptyCategory(c)) => c@ == category@ && exists|i: int|
                    first_category(self.categories@, lower_of(category@), i)
                        && self.categories@[i].sounds@.len() == 0,
                Err(_) => false,
            },
    {
        match self.category(category) {
            None => Err(ArchiveError::CategoryNotFound(String::from_str(category))),
            Some(c) => match c.random() {
                Some(s) => Ok(s),
                None => Err(ArchiveError::EmptyCategory(String::from_str(category))),
            },
        }
    }

    /// The sound `sound` (matched as `Category::sound` does) of the category
    /// `category`: `CategoryNotFound` with the category as given, or
    /// `SoundNotFound` with `'<sound>' in category '<category>'`, where there is
    /// none.
    pub fn find_sound(&self, category: &str, sound: &str) -> (r: Result<&SoundFile, ArchiveError>)
        ensures
            match r {
                Ok(s) => exists|i: int, k: int|
                    first_category(self.categories@, lower_of(category@), i) && first_sound(
                        self.categories@[i].sounds@,
                        sound@,
                        k,
                    ) && *s == self.categories@[i].sounds@[k],
                Err(ArchiveError::CategoryNotFound(c)) => c@ == category@ && forall|j: int|
                    0 <= j < self.categories@.len() ==> (#[trigger] self.categories@[j]).name@
                        != lower_of(category@),
                Err(ArchiveError::SoundNotFound(m)) => m@ == "'"@ + sound@ + "' in category '"@
                    + category@ + "'"@ && exists|i: int|
                    first_category(self.categories@, lower_of(category@), i) && forall|j: int|
                        0 <= j < self.categories@[i].sounds@.len() ==> !sound_matches(
                            #[trigger] self.categories@[i].sounds@[j],
                            sound@,
                        ),
                Err(_) => false,
            },
    {
        match self.category(category) {
            None => Err(ArchiveError::CategoryNotFound(String::from_str(category))),
            Some(c) => match c.sound(sound) {
                Some(s) => Ok(s),
                None => {
                    let mut m = String::from_str("'");
                    m.append(sound);
                    m.append("' in category '");
                    m.append(category);
                    m.append("'");
                    Err(ArchiveError::SoundNotFound(m))
                },
            },
        }
    }

    /// The names of all categories, in order.
    pub fn category_names(&self) -> (r: Vec<&str>)
        ensures
            r@.len() == self.categories@.len(),
            forall|i: int| 0 <= i < r@.len() ==> (#[trigger] r@[i])@ == self.categories@[i].name@,
    {
        let mut out: Vec<&str> = Vec::new();
        let n = self.categories.len();
        let mut i: usize = 0;
        while i < n
            invariant
                0 <= i <= n,
                n == self.categories@.len(),
                out@.len() == i,
                forall|k: int| 0 <= k < i ==> (#[trigger] out@[k])@ == self.categories@[k].name@,
            decreases n - i,
        {
            out.push(self.categories[i].name.as_str());
            i = i + 1;
        }
        out
    }
}

} // verus!
