//! Per-file bookkeeping: which videos need a fresh contact sheet, which
//! sheets have lost their video, and whose timestamps need repair.
//!
//! Paths are carried as plain strings; a file name is the path's last
//! component once trailing separators and current-directory components are
//! dropped, with `INVALID NAME` standing in where a path has none.  The directory scanning itself is
//! plain I/O and happens outside the library; each file arrives here as a
//! `FileRecord` holding its path and its modified time.

use vstd::prelude::*;

use crate::settings::Settings;

verus! {

/// The index of the last occurrence of `c` in `s`, or `-1` if there is none.
pub open spec fn spec_last_index_of(s: Seq<char>, c: char) -> int
    decreases s.len(),
{
    if s.len() == 0 {
        -1
    } else if s.last() == c {
        s.len() - 1
    } else {
        spec_last_index_of(s.drop_last(), c)
    }
}

proof fn lemma_last_index_of_push(s: Seq<char>, c: char, x: char)
    ensures
        spec_last_index_of(s.push(x), c) == if x == c {
            s.len() as int
        } else {
            spec_last_index_of(s, c)
        },
{
    assert(s.push(x).drop_last() =~= s);
}

/// The path with trailing separators and trailing current-directory
/// components removed: the prefix whose own last component names the file.
pub open spec fn spec_prune_trailing(s: Seq<char>) -> Seq<char>
    decreases s.len(),
{
    if s.len() == 0 {
        s
    } else if s.last() == '/' {
        spec_prune_trailing(s.drop_last())
    } else if s.last() == '.' && (s.len() == 1 || s[s.len() - 2] == '/') {
        spec_prune_trailing(s.drop_last())
    } else {
        s
    }
}

/// The last component of a path: what follows the last separator, once
/// trailing separators and current-directory components are dropped.
pub open spec fn spec_last_component(path: Seq<char>) -> Seq<char> {
    let t = spec_prune_trailing(path);
    t.subrange(spec_last_index_of(t, '/') + 1, t.len() as int)
}

/// Whether a last component does not name a file: nothing is left of the
/// path, or it ends in the current or the parent directory.
pub open spec fn spec_no_filename(f: Seq<char>) -> bool {
    f.len() == 0 || f == "."@ || f == ".."@
}

/// The file's name: the path's last component, or `INVALID NAME` when the
/// path has none.  This is the platform's file-name rule: separators and
/// current-directory components at the end of the path are ignored, and a
/// path that leaves nothing or ends in the parent directory has no name.
pub open spec fn spec_filename(path: Seq<char>) -> Seq<char> {
    let f = spec_last_component(path);
    if spec_no_filename(f) {
        "INVALID NAME"@
    } else {
        f
    }
}

/// The file name stripped of its extension: everything before the last dot,
/// unless that dot leads the name or there is none; `INVALID NAME` when the
/// path has no file name.
pub open spec fn spec_file_stem(path: Seq<char>) -> Seq<char> {
    let f = spec_last_component(path);
    if spec_no_filename(f) {
        "INVALID NAME"@
    } else {
        let d = spec_last_index_of(f, '.');
        if d >= 1 {
            f.subrange(0, d)
        } else {
            f
        }
    }
}

/// The index of the last occurrence of `c` in `s`, if there is one.
pub fn find_last_index_of(s: &str, c: char) -> (r: Option<usize>)
    ensures
        match r {
            Some(k) => spec_last_index_of(s@, c) == k && k < s@.len(),
            None => spec_last_index_of(s@, c) == -1,
        },
{
    let len = s.unicode_len();
    let mut i: usize = 0;
    let mut r: Option<usize> = None;
    while i < len
        invariant
            0 <= i <= s@.len(),
            len == s@.len(),
            match r {
                Some(k) => spec_last_index_of(s@.subrange(0, i as int), c) == k && k < i,
                None => spec_last_index_of(s@.subrange(0, i as int), c) == -1,
            },
        decreases len - i,
    {
        let ch = s.get_char(i);
        proof {
            assert(s@.subrange(0, i + 1) =~= s@.subrange(0, i as int).push(s@[i as int]));
            lemma_last_index_of_push(s@.subrange(0, i as int), c, s@[i as int]);
        }
        if ch == c {
            r = Some(i);
        }
        i = i + 1;
    }
    proof {
        assert(s@.subrange(0, s@.len() as int) =~= s@);
    }
    r
}

fn last_component(path: &str) -> (r: String)
    ensures
        r@ == spec_last_component(path@),
{
    let len = path.unicode_len();
    proof {
        assert(path@.subrange(0, path@.len() as int) =~= path@);
    }
    let mut end: usize = len;
    while end > 0 && (path.get_char(end - 1) == '/' || (path.get_char(end - 1) == '.' && (end == 1
        || path.get_char(end - 2) == '/')))
        invariant
            0 <= end <= len,
            len == path@.len(),
            spec_prune_trailing(path@) == spec_prune_trailing(path@.subrange(0, end as int)),
        decreases end,
    {
        proof {
            assert(path@.subrange(0, end as int).drop_last() =~= path@.subrange(0, end - 1));
        }
        end = end - 1;
    }
    proof {
        assert(path@.subrange(0, len as int) =~= path@);
        assert(spec_prune_trailing(path@) =~= path@.subrange(0, end as int));
    }
    let t = path.substring_char(0, end);
    match find_last_index_of(t, '/') {
        Some(k) => t.substring_char(k + 1, end).to_owned(),
        None => {
            proof {
                assert(t@.subrange(0, t@.len() as int) =~= t@);
            }
            t.to_owned()
        },
    }
}

fn is_no_filename(f: &String) -> (r: bool)
    ensures
        r == spec_no_filename(f@),
{
    let dot = String::from_str(".");
    let dotdot = String::from_str("..");
    f.as_str().unicode_len() == 0 || *f == dot || *f == dotdot
}

/// The file's name: the path's last component (trailing separators
/// dropped), or `INVALID NAME` when the path ends in nothing, `.` or `..`.
pub fn get_filename(path: &str) -> (r: String)
    ensures
        r@ == spec_filename(path@),
{
    let f = last_component(path);
    if is_no_filename(&f) {
        String::from_str("INVALID NAME")
    } else {
        f
    }
}

/// The file's name stripped of its extension, or `INVALID NAME` when the
/// path has no file name.
pub fn get_file_stem(path: &str) -> (r: String)
    ensures
        r@ == spec_file_stem(path@),
{
    let f = last_component(path);
    if is_no_filename(&f) {
        return String::from_str("INVALID NAME");
    }
    match find_last_index_of(f.as_str(), '.') {
        Some(k) if k >= 1 => f.as_str().substring_char(0, k).to_owned(),
        _ => f,
    }
}

/// The name a contact sheet file carries: the video's file name with `.jpg`
/// appended.
pub fn img_file_name(path: &str) -> (r: String)
    ensures
        r@ == spec_filename(path@) + ".jpg"@,
{
    let mut r = get_filename(path);
    r.append(".jpg");
    r
}

/// The top-level media types that the type-guessing tables associate with a
/// path, by its extension alone.
pub uninterp spec fn guessed_types_of(path: Seq<char>) -> Seq<Seq<char>>;

/// Relies on mime_guess's `from_path`: the guess is a pure lookup of the
/// path's extension in a static table — no disk access — so the result
/// depends on the path's characters alone.  Each guess is carried out as
/// its top-level type name.
#[verifier::external_body]
fn guess_mime_types(path: &str) -> (r: Vec<String>)
    ensures
        r.deep_view() == guessed_types_of(path@),
{
    mime_guess::from_path(std::path::Path::new(path))
        .iter()
        .map(|g| String::from(g.type_().as_str()))
        .collect()
}

/// Whether the path's guessed media types include the given top-level type
/// (such as `video` or `text`).
pub fn mime_filter(mime_type: &str, path: &str) -> (r: bool)
    ensures
        r == guessed_types_of(path@).contains(mime_type@),
{
    let types = guess_mime_types(path);
    let needle = mime_type.to_owned();
    let mut i: usize = 0;
    while i < types.len()
        invariant
            0 <= i <= types@.len(),
            needle@ == mime_type@,
            types.deep_view() == guessed_types_of(path@),
            forall|j: int| 0 <= j < i ==> guessed_types_of(path@)[j] != mime_type@,
        decreases types@.len() - i,
    {
        if types[i] == needle {
            proof {
                assert(guessed_types_of(path@)[i as int] == types@[i as int]@);
            }
            return true;
        }
        proof {
            assert(guessed_types_of(path@)[i as int] == types@[i as int]@);
        }
        i = i + 1;
    }
    proof {
        assert(forall|j: int|
            0 <= j < guessed_types_of(path@).len() ==> guessed_types_of(path@)[j] != mime_type@);
    }
    false
}

/// A file seen by the scan: its path and its modified time.
#[derive(Debug)]
pub struct FileRecord {
    pub path: String,
    pub mtime: i64,
}

impl FileRecord {
    /// An equal record, by copying the path's characters.
    pub fn duplicate(&self) -> (r: Self)
        ensures
            r == *self,
    {
        FileRecord { path: self.path.clone(), mtime: self.mtime }
    }
}

/// The first video file whose name equals the given sheet stem.
pub open spec fn spec_find_video(files: Seq<FileRecord>, stem: Seq<char>) -> Option<FileRecord>
    decreases files.len(),
{
    if files.len() == 0 {
        None
    } else if spec_filename(files[0].path@) == stem {
        Some(files[0])
    } else {
        spec_find_video(files.drop_first(), stem)
    }
}

proof fn lemma_find_video_filename(files: Seq<FileRecord>, stem: Seq<char>)
    ensures
        spec_find_video(files, stem) matches Some(v) ==> spec_filename(v.path@) == stem,
    decreases files.len(),
{
    if files.len() > 0 && spec_filename(files[0].path@) != stem {
        lemma_find_video_filename(files.drop_first(), stem);
    }
}

/// What is known of one video/sheet pair: the video file, if the scan saw
/// one, and its existing contact sheet, if any.
#[derive(Debug)]
pub struct FileInfo {
    pub video: Option<FileRecord>,
    pub screens: Option<FileRecord>,
}

impl FileInfo {
    /// The pair as seen from a video file: its existing sheet is kept only
    /// when regeneration is not forced.
    pub fn for_video(settings: &Settings, video: FileRecord, screens: Option<FileRecord>) -> (r:
        Self)
        ensures
            r.video == Some(video),
            r.screens == if settings.force {
                None::<FileRecord>
            } else {
                screens
            },
    {
        FileInfo {
            video: Some(video),
            screens: if settings.force() {
                None
            } else {
                screens
            },
        }
    }

    /// The pair as seen from an existing sheet: its video is the first video
    /// file whose name equals the sheet's stem.
    pub fn for_screens(video_files: &Vec<FileRecord>, screens: FileRecord) -> (r: Self)
        ensures
            r.screens == Some(screens),
            r.video == spec_find_video(video_files@, spec_file_stem(screens.path@)),
    {
        let video = Self::find_video_file(video_files, screens.path.as_str());
        FileInfo { screens: Some(screens), video }
    }

    /// Records the video file of the pair.
    pub fn with_video(&mut self, video: FileRecord)
        ensures
            final(self).video == Some(video),
            final(self).screens == old(self).screens,
    {
        self.video = Some(video);
    }

    /// Records the existing sheet of the pair, unless regeneration is forced.
    pub fn with_screens(&mut self, settings: &Settings, screens: FileRecord)
        ensures
            final(self).video == old(self).video,
            final(self).screens == if settings.force {
                old(self).screens
            } else {
                Some(screens)
            },
    {
        if !settings.force() {
            self.screens = Some(screens);
        }
    }

    /// A sheet with no video left is an orphan and should be deleted.
    pub fn should_delete_screens(&self) -> (r: bool)
        ensures
            r == (self.video is None && self.screens is Some),
    {
        self.video.is_none() && self.screens.is_some()
    }

    /// A video needs a sheet when it has none, or its own modified time is
    /// newer than its sheet's.
    pub fn should_generate_screens(&self) -> (r: bool)
        ensures
            r == (self.video is Some && (self.screens is None || self.video->0.mtime
                > self.screens->0.mtime)),
    {
        match (&self.video, &self.screens) {
            (Some(v), Some(s)) => v.mtime > s.mtime,
            (Some(_), None) => true,
            _ => false,
        }
    }

    /// The first video file whose name equals the stem of `path`.
    pub fn find_video_file(video_files: &Vec<FileRecord>, path: &str) -> (r: Option<FileRecord>)
        ensures
            r == spec_find_video(video_files@, spec_file_stem(path@)),
    {
        let stem = get_file_stem(path);
        proof {
            assert(video_files@.skip(0) =~= video_files@);
        }
        let mut i: usize = 0;
        while i < video_files.len()
            invariant
                0 <= i <= video_files@.len(),
                stem@ == spec_file_stem(path@),
                spec_find_video(video_files@, spec_file_stem(path@)) == spec_find_video(
                    video_files@.skip(i as int),
                    spec_file_stem(path@),
                ),
            decreases video_files@.len() - i,
        {
            proof {
                assert(video_files@.skip(i as int)[0] == video_files@[i as int]);
            }
            if get_filename(video_files[i].path.as_str()) == stem {
                return Some(video_files[i].duplicate());
            }
            proof {
                assert(video_files@.skip(i as int).drop_first() =~= video_files@.skip(i + 1));
            }
            i = i + 1;
        }
        None
    }

    /// Gives the sheet the video's modified time.  Answers whether anything
    /// had to change: both files known and their times apart.
    pub fn sync_mtimes(&mut self) -> (r: bool)
        ensures
            final(self).video == old(self).video,
            r == (old(self).video is Some && old(self).screens is Some && old(self).video->0.mtime
                != old(self).screens->0.mtime),
            r ==> final(self).screens is Some && final(self).screens->0.path == old(
                self,
            ).screens->0.path && final(self).screens->0.mtime == old(self).video->0.mtime,
            !r ==> final(self).screens == old(self).screens,
    {
        match (&self.video, &self.screens) {
            (Some(v), Some(s)) => {
                if v.mtime != s.mtime {
                    let new_screens = FileRecord { path: s.path.clone(), mtime: v.mtime };
                    self.screens = Some(new_screens);
                    true
                } else {
                    false
                }
            },
            _ => false,
        }
    }

    pub fn screens(&self) -> (r: &Option<FileRecord>)
        ensures
            r == &self.screens,
    {
        &self.screens
    }

    pub fn video(&self) -> (r: &Option<FileRecord>)
        ensures
            r == &self.video,
    {
        &self.video
    }
}

/// The index of the entry under `key`, or `-1` if there is none.
pub open spec fn spec_find_key(entries: Seq<(String, FileInfo)>, key: Seq<char>) -> int
    decreases entries.len(),
{
    if entries.len() == 0 {
        -1
    } else if entries[0].0@ == key {
        0
    } else {
        let r = spec_find_key(entries.drop_first(), key);
        if r == -1 {
            -1
        } else {
            r + 1
        }
    }
}

proof fn lemma_find_key_at(entries: Seq<(String, FileInfo)>, key: Seq<char>, i: int)
    requires
        0 <= i < entries.len(),
        entries[i].0@ == key,
        forall|j: int| 0 <= j < i ==> entries[j].0@ != key,
    ensures
        spec_find_key(entries, key) == i,
    decreases entries.len(),
{
    if i > 0 {
        lemma_find_key_at(entries.drop_first(), key, i - 1);
    }
}

proof fn lemma_find_key_range(entries: Seq<(String, FileInfo)>, key: Seq<char>)
    ensures
        spec_find_key(entries, key) >= -1,
    decreases entries.len(),
{
    if entries.len() > 0 && entries[0].0@ != key {
        lemma_find_key_range(entries.drop_first(), key);
    }
}

proof fn lemma_find_key_none(entries: Seq<(String, FileInfo)>, key: Seq<char>)
    requires
        spec_find_key(entries, key) == -1,
    ensures
        forall|j: int| 0 <= j < entries.len() ==> (#[trigger] entries[j]).0@ != key,
    decreases entries.len(),
{
    if entries.len() > 0 {
        assert(entries[0].0@ != key);
        lemma_find_key_range(entries.drop_first(), key);
        assert(spec_find_key(entries.drop_first(), key) == -1);
        lemma_find_key_none(entries.drop_first(), key);
        assert forall|j: int| 0 <= j < entries.len() implies (#[trigger] entries[j]).0@ != key by {
            if j > 0 {
                assert(entries.drop_first()[j - 1] == entries[j]);
            }
        }
    }
}

proof fn lemma_find_key_absent(entries: Seq<(String, FileInfo)>, key: Seq<char>)
    requires
        forall|j: int| 0 <= j < entries.len() ==> entries[j].0@ != key,
    ensures
        spec_find_key(entries, key) == -1,
    decreases entries.len(),
{
    if entries.len() > 0 {
        lemma_find_key_absent(entries.drop_first(), key);
    }
}

/// The paths of the orphaned sheets among the entries, in order.
pub open spec fn spec_screens_to_delete(entries: Seq<(String, FileInfo)>) -> Seq<Seq<char>>
    decreases entries.len(),
{
    if entries.len() == 0 {
        Seq::empty()
    } else {
        let rest = spec_screens_to_delete(entries.drop_last());
        let info = entries.last().1;
        if info.video is None && info.screens is Some {
            rest.push(info.screens->0.path@)
        } else {
            rest
        }
    }
}

/// The paths of the videos that need a fresh sheet, in order.
pub open spec fn spec_videos_to_process(entries: Seq<(String, FileInfo)>) -> Seq<Seq<char>>
    decreases entries.len(),
{
    if entries.len() == 0 {
        Seq::empty()
    } else {
        let rest = spec_videos_to_process(entries.drop_last());
        let info = entries.last().1;
        if info.video is Some && (info.screens is None || info.video->0.mtime
            > info.screens->0.mtime) {
            rest.push(info.video->0.path@)
        } else {
            rest
        }
    }
}

/// A pair after its sheet took the video's modified time.
pub open spec fn spec_synced_info(info: FileInfo) -> FileInfo {
    if info.video is Some && info.screens is Some && info.video->0.mtime != info.screens->0.mtime {
        FileInfo {
            video: info.video,
            screens: Some(FileRecord { path: info.screens->0.path, mtime: info.video->0.mtime }),
        }
    } else {
        info
    }
}

/// How many pairs have a sheet whose time is out of step with its video.
pub open spec fn spec_num_to_fix(entries: Seq<(String, FileInfo)>) -> int
    decreases entries.len(),
{
    if entries.len() == 0 {
        0
    } else {
        let info = entries.last().1;
        spec_num_to_fix(entries.drop_last()) + (if info.video is Some && info.screens is Some
            && info.video->0.mtime != info.screens->0.mtime {
            1int
        } else {
            0int
        })
    }
}

/// Entries carry pairwise-distinct keys, and an entry that holds a video is
/// keyed by that video's file name.  Distinct entries therefore never share
/// a video file name — which is what lets every job derive its own output
/// path from its video's name, with no two jobs writing the same file.
pub open spec fn spec_entries_wf(entries: Seq<(String, FileInfo)>) -> bool {
    &&& forall|i: int, j: int|
        0 <= i < j < entries.len() ==> (#[trigger] entries[i]).0@ != (#[trigger] entries[j]).0@
    &&& forall|i: int|
        0 <= i < entries.len() && (#[trigger] entries[i]).1.video is Some ==> entries[i].0@
            == spec_filename(entries[i].1.video->0.path@)
}

/// The pairs of video files and contact sheets that one run works through:
/// a video's entry is keyed by its file name, a sheet still waiting for its
/// video by the sheet's stem (the video name it answers to).
#[derive(Debug)]
pub struct FileInfoMap {
    force: bool,
    entries: Vec<(String, FileInfo)>,
}

impl FileInfoMap {
    pub closed spec fn entries_view(&self) -> Seq<(String, FileInfo)> {
        self.entries@
    }

    /// Whether regeneration is forced for this run.
    pub closed spec fn spec_force(&self) -> bool {
        self.force
    }

    /// The map's invariant, established by `new` and kept by every method.
    pub open spec fn wf(&self) -> bool {
        spec_entries_wf(self.entries_view())
    }

    /// An empty map that remembers whether regeneration is forced.
    pub fn new(settings: &Settings) -> (r: Self)
        ensures
            r.entries_view() == Seq::<(String, FileInfo)>::empty(),
            r.spec_force() == settings.force,
            r.wf(),
    {
        FileInfoMap { force: settings.force(), entries: Vec::new() }
    }

    fn find_index(&self, key: &String) -> (r: Option<usize>)
        ensures
            match r {
                Some(i) => spec_find_key(self.entries@, key@) == i && i < self.entries@.len()
                    && self.entries@[i as int].0@ == key@,
                None => spec_find_key(self.entries@, key@) == -1,
            },
    {
        let mut i: usize = 0;
        while i < self.entries.len()
            invariant
                0 <= i <= self.entries@.len(),
                forall|j: int| 0 <= j < i ==> self.entries@[j].0@ != key@,
            decreases self.entries@.len() - i,
        {
            if self.entries[i].0 == *key {
                proof {
                    lemma_find_key_at(self.entries@, key@, i as int);
                }
                return Some(i);
            }
            i = i + 1;
        }
        proof {
            lemma_find_key_absent(self.entries@, key@);
        }
        None
    }

    /// Enters a video file: an entry under its file name gains the video, a
    /// missing one is created alongside its sheet, if the scan saw one.
    pub fn add_video(&mut self, video: FileRecord, screens: Option<FileRecord>)
        requires
            old(self).wf(),
        ensures
            final(self).wf(),
            ({
                let key = spec_filename(video.path@);
                let i = spec_find_key(old(self).entries_view(), key);
                &&& final(self).spec_force() == old(self).spec_force()
                &&& if i == -1 {
                    &&& final(self).entries_view().len() == old(self).entries_view().len() + 1
                    &&& final(self).entries_view().drop_last() == old(self).entries_view()
                    &&& final(self).entries_view().last().0@ == key
                    &&& final(self).entries_view().last().1 == FileInfo {
                        video: Some(video),
                        screens: if old(self).spec_force() {
                            None::<FileRecord>
                        } else {
                            screens
                        },
                    }
                } else {
                    final(self).entries_view() == old(self).entries_view().update(
                        i,
                        (
                            old(self).entries_view()[i].0,
                            FileInfo {
                                video: Some(video),
                                screens: old(self).entries_view()[i].1.screens,
                            },
                        ),
                    )
                }
            }),
    {
        let key = get_filename(video.path.as_str());
        match self.find_index(&key) {
            Some(i) => {
                let (k, mut info) = self.entries.remove(i);
                info.with_video(video);
                self.entries.insert(i, (k, info));
                proof {
                    assert(self.entries@ =~= old(self).entries@.update(
                        i as int,
                        (old(self).entries@[i as int].0, self.entries@[i as int].1),
                    ));
                    assert forall|m: int|
                        0 <= m < self.entries@.len() && (#[trigger] self.entries@[m]).1.video
                            is Some implies self.entries@[m].0@ == spec_filename(
                        self.entries@[m].1.video->0.path@,
                    ) by {
                        if m != i {
                            assert(old(self).entries@[m].1.video is Some ==> old(
                                self,
                            ).entries@[m].0@ == spec_filename(old(self).entries@[m].1.video->0.path@));
                        }
                    }
                }
            },
            None => {
                let info = FileInfo {
                    video: Some(video),
                    screens: if self.force {
                        None
                    } else {
                        screens
                    },
                };
                self.entries.push((key, info));
                proof {
                    assert(self.entries@.drop_last() =~= old(self).entries@);
                    lemma_find_key_none(old(self).entries@, key@);
                }
            },
        }
    }

    /// Enters an existing sheet: an entry under the sheet's stem gains the
    /// sheet, a missing one is created under that stem, paired with the
    /// video file matching it, if any.
    pub fn add_screencap(&mut self, screens: FileRecord, video_files: &Vec<FileRecord>)
        requires
            old(self).wf(),
        ensures
            final(self).wf(),
            ({
                let stem = spec_file_stem(screens.path@);
                let i = spec_find_key(old(self).entries_view(), stem);
                &&& final(self).spec_force() == old(self).spec_force()
                &&& if i == -1 {
                    &&& final(self).entries_view().len() == old(self).entries_view().len() + 1
                    &&& final(self).entries_view().drop_last() == old(self).entries_view()
                    &&& final(self).entries_view().last().0@ == stem
                    &&& final(self).entries_view().last().1 == FileInfo {
                        video: spec_find_video(video_files@, stem),
                        screens: Some(screens),
                    }
                } else {
                    final(self).entries_view() == old(self).entries_view().update(
                        i,
                        (
                            old(self).entries_view()[i].0,
                            FileInfo {
                                video: old(self).entries_view()[i].1.video,
                                screens: if old(self).spec_force() {
                                    old(self).entries_view()[i].1.screens
                                } else {
                                    Some(screens)
                                },
                            },
                        ),
                    )
                }
            }),
    {
        let stem = get_file_stem(screens.path.as_str());
        match self.find_index(&stem) {
            Some(i) => {
                let force = self.force;
                let (k, mut info) = self.entries.remove(i);
                if !force {
                    info.screens = Some(screens);
                }
                self.entries.insert(i, (k, info));
                proof {
                    assert(self.entries@ =~= old(self).entries@.update(
                        i as int,
                        (old(self).entries@[i as int].0, self.entries@[i as int].1),
                    ));
                    assert forall|m: int|
                        0 <= m < self.entries@.len() && (#[trigger] self.entries@[m]).1.video
                            is Some implies self.entries@[m].0@ == spec_filename(
                        self.entries@[m].1.video->0.path@,
                    ) by {
                        assert(old(self).entries@[m].1.video is Some ==> old(self).entries@[m].0@
                            == spec_filename(old(self).entries@[m].1.video->0.path@));
                    }
                }
            },
            None => {
                let info = FileInfo::for_screens(video_files, screens);
                self.entries.push((stem, info));
                proof {
                    assert(self.entries@.drop_last() =~= old(self).entries@);
                    lemma_find_key_none(old(self).entries@, self.entries@.last().0@);
                    lemma_find_video_filename(video_files@, self.entries@.last().0@);
                }
            },
        }
    }

    /// The paths of the sheets that have no video any more.
    pub fn get_screens_to_delete(&self) -> (r: Vec<String>)
        ensures
            r.deep_view() == spec_screens_to_delete(self.entries_view()),
    {
        let mut r: Vec<String> = Vec::new();
        let mut i: usize = 0;
        while i < self.entries.len()
            invariant
                0 <= i <= self.entries@.len(),
                r.deep_view() == spec_screens_to_delete(self.entries@.subrange(0, i as int)),
            decreases self.entries@.len() - i,
        {
            proof {
                assert(self.entries@.subrange(0, i + 1).drop_last() =~= self.entries@.subrange(
                    0,
                    i as int,
                ));
            }
            let info = &self.entries[i].1;
            if info.should_delete_screens() {
                match &info.screens {
                    Some(s) => {
                        r.push(s.path.clone());
                        proof {
                            assert(r.deep_view() =~= spec_screens_to_delete(
                                self.entries@.subrange(0, i + 1),
                            ));
                        }
                    },
                    None => (),
                }
            } else {
                proof {
                    assert(r.deep_view() =~= spec_screens_to_delete(
                        self.entries@.subrange(0, i + 1),
                    ));
                }
            }
            i = i + 1;
        }
        proof {
            assert(self.entries@.subrange(0, self.entries@.len() as int) =~= self.entries@);
        }
        r
    }

    /// The paths of the videos whose sheet is missing or stale.
    /// The returned paths carry pairwise-distinct file names, so the jobs
    /// spawned for them derive pairwise-distinct output paths: no two jobs
    /// ever write the same sheet.
    pub fn get_videos_to_process(&self) -> (r: Vec<String>)
        requires
            self.wf(),
        ensures
            r.deep_view() == spec_videos_to_process(self.entries_view()),
            forall|m: int, n: int|
                0 <= m < n < r.deep_view().len() ==> spec_filename(#[trigger] r.deep_view()[m])
                    != spec_filename(#[trigger] r.deep_view()[n]),
    {
        let mut r: Vec<String> = Vec::new();
        let ghost mut idxs: Seq<int> = Seq::empty();
        let mut i: usize = 0;
        while i < self.entries.len()
            invariant
                self.wf(),
                0 <= i <= self.entries@.len(),
                r.deep_view() == spec_videos_to_process(self.entries@.subrange(0, i as int)),
                idxs.len() == r.deep_view().len(),
                forall|m: int| 0 <= m < idxs.len() ==> 0 <= #[trigger] idxs[m] < i,
                forall|m: int, n: int| 0 <= m < n < idxs.len() ==> idxs[m] < idxs[n],
                forall|m: int|
                    0 <= m < idxs.len() ==> self.entries@[#[trigger] idxs[m]].1.video is Some
                        && r.deep_view()[m] == self.entries@[idxs[m]].1.video->0.path@,
            decreases self.entries@.len() - i,
        {
            proof {
                assert(self.entries@.subrange(0, i + 1).drop_last() =~= self.entries@.subrange(
                    0,
                    i as int,
                ));
            }
            let info = &self.entries[i].1;
            if info.should_generate_screens() {
                match &info.video {
                    Some(v) => {
                        r.push(v.path.clone());
                        proof {
                            idxs = idxs.push(i as int);
                            assert(r.deep_view() =~= spec_videos_to_process(
                                self.entries@.subrange(0, i + 1),
                            ));
                        }
                    },
                    None => (),
                }
            } else {
                proof {
                    assert(r.deep_view() =~= spec_videos_to_process(
                        self.entries@.subrange(0, i + 1),
                    ));
                }
            }
            i = i + 1;
        }
        proof {
            assert(self.entries@.subrange(0, self.entries@.len() as int) =~= self.entries@);
            assert forall|m: int, n: int|
                0 <= m < n < r.deep_view().len() implies spec_filename(
                #[trigger] r.deep_view()[m],
            ) != spec_filename(#[trigger] r.deep_view()[n]) by {
                let a = idxs[m];
                let b = idxs[n];
                assert(self.entries@[a].0@ == spec_filename(self.entries@[a].1.video->0.path@));
                assert(self.entries@[b].0@ == spec_filename(self.entries@[b].1.video->0.path@));
                assert(self.entries@[a].0@ != self.entries@[b].0@);
            }
        }
        r
    }

    /// Drops the entry under the given file name, if there is one.
    pub fn remove(&mut self, file_name: &str)
        requires
            old(self).wf(),
        ensures
            final(self).wf(),
            final(self).spec_force() == old(self).spec_force(),
            ({
                let i = spec_find_key(old(self).entries_view(), file_name@);
                if i == -1 {
                    final(self).entries_view() == old(self).entries_view()
                } else {
                    final(self).entries_view() == old(self).entries_view().remove(i)
                }
            }),
    {
        let key = file_name.to_owned();
        match self.find_index(&key) {
            Some(i) => {
                self.entries.remove(i);
            },
            None => (),
        }
    }

    /// Gives every known sheet its video's modified time; answers how many
    /// had to change.
    pub fn fix_times(&mut self) -> (r: usize)
        requires
            old(self).wf(),
        ensures
            final(self).wf(),
            final(self).spec_force() == old(self).spec_force(),
            final(self).entries_view().len() == old(self).entries_view().len(),
            forall|i: int|
                0 <= i < old(self).entries_view().len() ==> final(self).entries_view()[i].0 == old(
                    self,
                ).entries_view()[i].0 && final(self).entries_view()[i].1 == spec_synced_info(
                    old(self).entries_view()[i].1,
                ),
            r == spec_num_to_fix(old(self).entries_view()),
    {
        let mut num_fixed: usize = 0;
        let mut i: usize = 0;
        while i < self.entries.len()
            invariant
                0 <= i <= self.entries@.len(),
                self.force == old(self).force,
                self.entries@.len() == old(self).entries@.len(),
                forall|j: int|
                    0 <= j < i ==> self.entries@[j].0 == old(self).entries@[j].0
                        && self.entries@[j].1 == spec_synced_info(old(self).entries@[j].1),
                forall|j: int| i <= j < self.entries@.len() ==> self.entries@[j] == old(self).entries@[j],
                num_fixed == spec_num_to_fix(old(self).entries@.subrange(0, i as int)),
                num_fixed <= i,
            decreases self.entries@.len() - i,
        {
            proof {
                assert(old(self).entries@.subrange(0, i + 1).drop_last() =~= old(
                    self,
                ).entries@.subrange(0, i as int));
            }
            let (k, mut info) = self.entries.remove(i);
            let fixed = info.sync_mtimes();
            self.entries.insert(i, (k, info));
            if fixed {
                num_fixed = num_fixed + 1;
            }
            i = i + 1;
        }
        proof {
            assert(old(self).entries@.subrange(0, old(self).entries@.len() as int) =~= old(
                self,
            ).entries@);
        }
        num_fixed
    }
}

} // verus!
