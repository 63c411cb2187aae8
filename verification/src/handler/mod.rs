//! Handlers: which module takes a request, and the files a handler produces.
pub mod youtube;
pub mod twitch;
pub mod job;

use vstd::prelude::*;
use crate::common::{Error, Request};
use crate::downloader::string_views;
use crate::text::{str_chars, slice_string, lit_at_exec};
use youtube::{
    yt_video_match, yt_playlist_match, lemma_video_url_any_domain, lemma_playlist_url_any_domain,
};
use crate::pattern::{CharClass, all_in};
use twitch::tw_video_match;

verus! {

broadcast use vstd::string::group_string_axioms;

/// A file to be entered into the file table once the job is done.
#[derive(Debug)]
pub struct FileEntry {
    pub path: String,
    pub origin_name: String,
}

/// The files of one job: `files` are its results, to be entered into the
/// database; `left_files` are temporary files, removed when the job fails.
pub struct HandleData {
    files: Vec<FileEntry>,
    left_files: Vec<String>,
}

pub open spec fn entry_views(v: Seq<FileEntry>) -> Seq<(Seq<char>, Seq<char>)> {
    v.map_values(|e: FileEntry| (e.path@, e.origin_name@))
}

impl HandleData {
    /// The results, as (path, original name) pairs.
    pub closed spec fn files_view(&self) -> Seq<(Seq<char>, Seq<char>)> {
        entry_views(self.files@)
    }

    /// The temporary files.
    pub closed spec fn left_view(&self) -> Seq<Seq<char>> {
        string_views(self.left_files@)
    }

    pub fn new() -> (r: HandleData)
        ensures
            r.files_view() == Seq::<(Seq<char>, Seq<char>)>::empty(),
            r.left_view() == Seq::<Seq<char>>::empty(),
    {
        let r = HandleData { files: Vec::new(), left_files: Vec::new() };
        assert(r.files_view() =~= Seq::<(Seq<char>, Seq<char>)>::empty());
        assert(r.left_view() =~= Seq::<Seq<char>>::empty());
        r
    }

    /// Add a file to be inserted into the file db
    pub fn addFile(&mut self, file: &str, origin_name: &str)
        ensures
            final(self).files_view() == old(self).files_view().push((file@, origin_name@)),
            final(self).left_view() == old(self).left_view(),
    {
        let ghost before = self.files@;
        self.files.push(FileEntry { origin_name: origin_name.to_string(), path: file.to_string() });
        assert(entry_views(self.files@) =~= entry_views(before).push((file@, origin_name@)));
    }

    /// Push a file to the temporary files
    pub fn push(&mut self, file: &str)
        ensures
            final(self).left_view() == old(self).left_view().push(file@),
            final(self).files_view() == old(self).files_view(),
    {
        let ghost before = self.left_files@;
        self.left_files.push(file.to_string());
        assert(string_views(self.left_files@) =~= string_views(before).push(file@));
    }

    /// Pop the last temporary file: it is dealt with
    pub fn pop(&mut self)
        ensures
            old(self).left_view().len() > 0 ==> final(self).left_view() == old(
                self,
            ).left_view().drop_last(),
            old(self).left_view().len() == 0 ==> final(self).left_view() == old(self).left_view(),
            final(self).files_view() == old(self).files_view(),
    {
        let ghost before = self.left_files@;
        let _ = self.left_files.pop();
        proof {
            if before.len() > 0 {
                assert(string_views(self.left_files@) =~= string_views(before).drop_last());
            }
        }
    }

    /// The temporary files
    pub fn getLeftFiles(&self) -> (r: &Vec<String>)
        ensures
            string_views(r@) == self.left_view(),
    {
        &self.left_files
    }

    /// The results
    pub fn getFiles(&self) -> (r: &Vec<FileEntry>)
        ensures
            entry_views(r@) == self.files_view(),
    {
        &self.files
    }
}

/// What `Path::file_name` gives for a path that ends in a name: the text
/// after the last `/`.
pub open spec fn last_component(p: Seq<char>) -> Seq<char>
    decreases p.len(),
{
    if p.len() == 0 {
        Seq::empty()
    } else if p.last() == '/' {
        Seq::empty()
    } else {
        last_component(p.drop_last()).push(p.last())
    }
}

proof fn lemma_last_component(p: Seq<char>, i: int)
    requires
        0 <= i <= p.len(),
        i == 0 || p[i - 1] == '/',
        forall|j: int| i <= j < p.len() ==> p[j] != '/',
    ensures
        last_component(p) == p.subrange(i, p.len() as int),
    decreases p.len(),
{
    if p.len() > i {
        lemma_last_component(p.drop_last(), i);
        assert(p.subrange(i, p.len() as int) =~= p.drop_last().subrange(i, p.len() - 1).push(p.last()));
    } else if p.len() > 0 {
        assert(p.subrange(i, p.len() as int) =~= Seq::<char>::empty());
    }
}

/// The file name of a path is its end after the last `/`: it holds no `/`,
/// and the path is some folder part (empty or ending in `/`) followed by it.
pub proof fn lemma_file_name_is_last_component(p: Seq<char>)
    ensures
        !last_component(p).contains('/'),
        exists|k: int|
            0 <= k <= p.len() && (k == 0 || p[k - 1] == '/') && p == p.take(k) + last_component(p),
    decreases p.len(),
{
    if p.len() == 0 {
        assert(p == p.take(0) + last_component(p));
    } else if p.last() == '/' {
        assert(p =~= p.take(p.len() as int) + last_component(p));
    } else {
        let q = p.drop_last();
        lemma_file_name_is_last_component(q);
        let k = choose|k: int|
            0 <= k <= q.len() && (k == 0 || q[k - 1] == '/') && q == q.take(k) + last_component(q);
        assert(p.take(k) =~= q.take(k));
        assert(p =~= q.push(p.last()));
        assert(last_component(p) == last_component(q).push(p.last()));
        assert(q.take(k) + last_component(q).push(p.last()) =~= (q.take(k) + last_component(q)).push(
            p.last(),
        ));
        assert(p =~= p.take(k) + last_component(p));
        assert forall|j: int| 0 <= j < last_component(p).len() implies last_component(p)[j] != '/' by {
            if j < last_component(q).len() {
                assert(last_component(p)[j] == last_component(q)[j]);
                assert(!last_component(q).contains('/'));
            }
        }
    }
}

/// The file name at the end of a path.
pub fn file_name_of(path: &str) -> (r: String)
    ensures
        r@ == last_component(path@),
{
    let s = str_chars(path);
    let mut i: usize = s.len();
    while i > 0 && s[i - 1] != '/'
        invariant
            i <= s@.len(),
            s@ == path@,
            forall|j: int| i <= j < s@.len() ==> s@[j] != '/',
        decreases i,
    {
        i = i - 1;
    }
    proof {
        lemma_last_component(s@, i as int);
    }
    slice_string(s.as_slice(), i, s.len())
}

/// What the end of a job leaves to do.
pub struct JobCleanup {
    /// The temporary files still recorded, to be removed in this order
    pub remove_files: Vec<String>,
    /// Whether the job's temporary folder goes: it is not the configured one
    pub remove_temp_dir: bool,
    /// The result files to enter, in order: file name and original name
    pub entries: Vec<(String, String)>,
}

pub open spec fn name_pair_views(v: Seq<(String, String)>) -> Seq<(Seq<char>, Seq<char>)> {
    v.map_values(|e: (String, String)| (e.0@, e.1@))
}

/// The entries of the recorded result files: each path's file name with the
/// original name, in recording order.
pub open spec fn entries_spec(files: Seq<(Seq<char>, Seq<char>)>) -> Seq<(Seq<char>, Seq<char>)> {
    files.map_values(|e: (Seq<char>, Seq<char>)| (last_component(e.0), e.1))
}

/// The end of a job, whatever its handler returned: the temporary files
/// that are still recorded go, in order; the job's temporary folder goes
/// when its path differs from the configured temporary folder; and every
/// recorded result file is entered, in recording order, under its file name.
pub fn job_cleanup(hdb: &HandleData, temp_path: &str, configured_temp: &str) -> (r: JobCleanup)
    ensures
        string_views(r.remove_files@) == hdb.left_view(),
        r.remove_temp_dir == (temp_path@ != configured_temp@),
        name_pair_views(r.entries@) == entries_spec(hdb.files_view()),
{
    let left = hdb.getLeftFiles();
    let mut remove_files: Vec<String> = Vec::new();
    let mut k: usize = 0;
    while k < left.len()
        invariant
            k <= left@.len(),
            string_views(left@) == hdb.left_view(),
            string_views(remove_files@) == string_views(left@).take(k as int),
        decreases left@.len() - k,
    {
        let ghost before = remove_files@;
        let c = left[k].clone();
        assert(c@ == left@[k as int]@);
        remove_files.push(c);
        assert(string_views(remove_files@) =~= string_views(before).push(c@));
        assert(string_views(remove_files@) =~= string_views(left@).take(k + 1));
        k = k + 1;
    }
    assert(string_views(left@).take(left@.len() as int) =~= string_views(left@));
    let files = hdb.getFiles();
    let mut entries: Vec<(String, String)> = Vec::new();
    let mut k: usize = 0;
    while k < files.len()
        invariant
            k <= files@.len(),
            entry_views(files@) == hdb.files_view(),
            name_pair_views(entries@) == entries_spec(entry_views(files@)).take(k as int),
        decreases files@.len() - k,
    {
        let ghost before = entries@;
        let f = &files[k];
        let n = file_name_of(f.path.as_str());
        let o = f.origin_name.clone();
        assert(o@ == files@[k as int].origin_name@);
        entries.push((n, o));
        assert(name_pair_views(entries@) =~= name_pair_views(before).push((n@, o@)));
        assert(name_pair_views(entries@) =~= entries_spec(entry_views(files@)).take(k + 1));
        k = k + 1;
    }
    assert(entries_spec(entry_views(files@)).take(files@.len() as int) =~= entries_spec(
        entry_views(files@),
    ));
    let a = str_chars(temp_path);
    let b = str_chars(configured_temp);
    let same = a.len() == b.len() && lit_at_exec(a.as_slice(), 0, b.as_slice());
    proof {
        if same || a@ == b@ {
            assert(a@.subrange(0, b@.len() as int) =~= a@);
        }
    }
    JobCleanup { remove_files, remove_temp_dir: !same, entries }
}

/// What the end of a job does next.
pub enum WriteStep {
    /// Enter this result file (file name, original name) into the database
    Write(String, String),
    /// The job ends with this result
    Done(Result<(), Error>),
}

/// The entries of a finished job's result files, written one by one, for a
/// handler that succeeded or failed alike. The first write that fails ends
/// the job with its error and leaves the rest unwritten; once all are
/// written the job ends with the handler's result.
pub struct EntryWriter {
    pub entries: Vec<(String, String)>,
    /// How many entries were handed out
    pub next: usize,
    /// The handler's result, until it is handed back
    pub result: Option<Result<(), Error>>,
}

impl EntryWriter {
    /// The writer for these entries (`JobCleanup::entries`) after a handler
    /// returned `handler_result`.
    pub fn new(entries: Vec<(String, String)>, handler_result: Result<(), Error>) -> (r: EntryWriter)
        ensures
            r.entries == entries,
            r.next == 0,
            r.result == Some(handler_result),
    {
        EntryWriter { entries, next: 0, result: Some(handler_result) }
    }

    /// Given how the last write went (`Ok(())` before the first one): the
    /// next entry to write, or how the job ends.
    pub fn step(&mut self, last: Result<(), Error>) -> (r: WriteStep)
        ensures
            final(self).entries == old(self).entries,
            last is Err ==> r == WriteStep::Done(last) && final(self).result is None
                && final(self).next == old(self).entries@.len(),
            last is Ok && old(self).next < old(self).entries@.len() ==> (r matches WriteStep::Write(
                n,
                o,
            ) && n@ == old(self).entries@[old(self).next as int].0@ && o@ == old(
                self,
            ).entries@[old(self).next as int].1@) && final(self).next == old(self).next + 1
                && final(self).result == old(self).result,
            last is Ok && old(self).next >= old(self).entries@.len() ==> r == WriteStep::Done(
                match old(self).result {
                    Some(x) => x,
                    None => Ok(()),
                },
            ) && final(self).result is None && final(self).next == old(self).next,
    {
        if last.is_err() {
            self.result = None;
            self.next = self.entries.len();
            return WriteStep::Done(last);
        }
        if self.next < self.entries.len() {
            let n = self.entries[self.next].0.clone();
            let o = self.entries[self.next].1.clone();
            self.next = self.next + 1;
            return WriteStep::Write(n, o);
        }
        let mut taken: Option<Result<(), Error>> = None;
        std::mem::swap(&mut taken, &mut self.result);
        match taken {
            Some(x) => WriteStep::Done(x),
            None => WriteStep::Done(Ok(())),
        }
    }
}

/// Pushing a temporary file and popping it again leaves the temporary files
/// as they were.
pub proof fn lemma_push_pop(left: Seq<Seq<char>>, file: Seq<char>)
    ensures
        left.push(file).len() > 0,
        left.push(file).drop_last() == left,
{
    assert(left.push(file).drop_last() =~= left);
}

/// The modules of the handlers, each a checker with its handler.
#[derive(Debug, Clone, Copy, PartialEq, Eq)]
pub enum Module {
    /// Single youtube videos
    YoutubeFile,
    /// Youtube playlists
    YoutubePlaylist,
    /// Single twitch videos
    TwitchFile,
}

/// Whether the module's checker accepts a request for `url`.
pub open spec fn module_accepts(m: Module, url: Seq<char>, playlist: bool) -> bool {
    match m {
        Module::YoutubeFile => !playlist && yt_video_match(url),
        Module::YoutubePlaylist => playlist && yt_playlist_match(url),
        Module::TwitchFile => !playlist && tw_video_match(url),
    }
}

impl Module {
    /// The module's checker.
    pub fn check(&self, data: &Request) -> (r: bool)
        ensures
            r == module_accepts(*self, data.url@, data.playlist),
    {
        match self {
            Module::YoutubeFile => youtube::checker_file(data),
            Module::YoutubePlaylist => youtube::checker_playlist(data),
            Module::TwitchFile => twitch::checker_file(data),
        }
    }
}

/// The first module, in registration order, that accepts the request.
pub open spec fn first_accepting(modules: Seq<Module>, url: Seq<char>, playlist: bool) -> Option<
    Module,
>
    decreases modules.len(),
{
    if modules.len() == 0 {
        None
    } else if module_accepts(modules[0], url, playlist) {
        Some(modules[0])
    } else {
        first_accepting(modules.drop_first(), url, playlist)
    }
}

/// All registered modules.
pub struct Registry {
    modules: Vec<Module>,
}

impl Registry {
    pub closed spec fn modules_view(&self) -> Seq<Module> {
        self.modules@
    }

    pub fn new() -> (r: Registry)
        ensures
            r.modules_view() == Seq::<Module>::empty(),
    {
        Registry { modules: Vec::new() }
    }

    /// Register a module
    pub fn register(&mut self, module: Module)
        ensures
            final(self).modules_view() == old(self).modules_view().push(module),
    {
        self.modules.push(module);
    }

    /// The module that handles the request: the first registered one whose
    /// checker accepts it, or `UnknownURL` when none does. The module's step
    /// function (`handler::job`) then runs the job; whatever it returns,
    /// `job_cleanup` gives the files and folder to remove and the result
    /// files to enter, and `EntryWriter` writes those entries and gives the
    /// job's result.
    pub fn handle(&self, data: &Request) -> (r: Result<Module, Error>)
        ensures
            first_accepting(self.modules_view(), data.url@, data.playlist) matches Some(m) ==> r
                == Ok::<Module, Error>(m),
            first_accepting(self.modules_view(), data.url@, data.playlist) is None ==> r matches Err(
                Error::UnknownURL,
            ),
    {
        let ghost ms = self.modules@;
        let mut k: usize = 0;
        assert(ms.skip(0) =~= ms);
        while k < self.modules.len()
            invariant
                k <= ms.len(),
                ms == self.modules@,
                first_accepting(ms.skip(k as int), data.url@, data.playlist) == first_accepting(
                    ms,
                    data.url@,
                    data.playlist,
                ),
            decreases ms.len() - k,
        {
            assert(ms.skip(k as int)[0] == ms[k as int]);
            assert(ms.skip(k as int).drop_first() =~= ms.skip(k + 1));
            if self.modules[k].check(data) {
                return Ok(self.modules[k]);
            }
            k = k + 1;
        }
        assert(ms.skip(k as int).len() == 0);
        Err(Error::UnknownURL)
    }
}

/// The modules in registration order: youtube files, youtube playlists,
/// twitch files.
pub open spec fn standard_modules() -> Seq<Module> {
    seq![Module::YoutubeFile, Module::YoutubePlaylist, Module::TwitchFile]
}

/// Init handlers
pub fn init_handlers() -> (r: Registry)
    ensures
        r.modules_view() == standard_modules(),
{
    let mut registry = Registry::new();
    registry.register(Module::YoutubeFile);
    registry.register(Module::YoutubePlaylist);
    registry.register(Module::TwitchFile);
    assert(registry.modules_view() =~= standard_modules());
    registry
}

/// Which module the standard registry picks: a single request goes to the
/// youtube file module for a youtube video URL and else to the twitch module
/// for a twitch video URL; a playlist request goes to the youtube playlist
/// module for a playlist URL; every other request is refused.
pub proof fn lemma_standard_dispatch(url: Seq<char>, playlist: bool)
    ensures
        first_accepting(standard_modules(), url, playlist) == (if !playlist && yt_video_match(url) {
            Some(Module::YoutubeFile)
        } else if playlist && yt_playlist_match(url) {
            Some(Module::YoutubePlaylist)
        } else if !playlist && tw_video_match(url) {
            Some(Module::TwitchFile)
        } else {
            None
        }),
{
    reveal_with_fuel(first_accepting, 4);
    let ms = standard_modules();
    assert(ms.drop_first() =~= seq![Module::YoutubePlaylist, Module::TwitchFile]);
    assert(ms.drop_first().drop_first() =~= seq![Module::TwitchFile]);
    assert(ms.drop_first().drop_first().drop_first() =~= Seq::<Module>::empty());
}

/// The standard registry sends a single request for
/// `https://www.youtube.{cc}/watch?v={id}` (a domain of two or three letters)
/// to the youtube file module, and a playlist request for
/// `https://www.youtube.{cc}/playlist?list={id}` (two to four letters) to the
/// youtube playlist module.
pub proof fn lemma_youtube_urls_dispatch(cc: Seq<char>, id: Seq<char>)
    requires
        2 <= cc.len() <= 4,
        all_in(cc, 0, cc.len() as int, CharClass::Lower),
        id.len() > 0,
        all_in(id, 0, id.len() as int, CharClass::Id),
    ensures
        cc.len() <= 3 ==> first_accepting(
            standard_modules(),
            "https://www.youtube."@ + cc + "/watch?v="@ + id,
            false,
        ) == Some(Module::YoutubeFile),
        first_accepting(
            standard_modules(),
            "https://www.youtube."@ + cc + "/playlist?list="@ + id,
            true,
        ) == Some(Module::YoutubePlaylist),
{
    if cc.len() <= 3 {
        lemma_video_url_any_domain(cc, id);
        lemma_standard_dispatch("https://www.youtube."@ + cc + "/watch?v="@ + id, false);
    }
    lemma_playlist_url_any_domain(cc, id);
    lemma_standard_dispatch("https://www.youtube."@ + cc + "/playlist?list="@ + id, true);
}

/// A request is refused with `UnknownURL` exactly when no registered module
/// accepts it; otherwise the module it goes to accepts it.
pub proof fn lemma_refused_iff_no_module(modules: Seq<Module>, url: Seq<char>, playlist: bool)
    ensures
        first_accepting(modules, url, playlist) is None <==> forall|i: int|
            0 <= i < modules.len() ==> !module_accepts(#[trigger] modules[i], url, playlist),
        first_accepting(modules, url, playlist) matches Some(m) ==> module_accepts(
            m,
            url,
            playlist,
        ) && modules.contains(m),
    decreases modules.len(),
{
    if modules.len() > 0 {
        let rest = modules.drop_first();
        lemma_refused_iff_no_module(rest, url, playlist);
        if module_accepts(modules[0], url, playlist) {
            assert(modules.contains(modules[0]));
        } else {
            assert((forall|i: int| 0 <= i < modules.len() ==> !module_accepts(
                #[trigger] modules[i],
                url,
                playlist,
            )) <==> (forall|j: int| 0 <= j < rest.len() ==> !module_accepts(
                #[trigger] rest[j],
                url,
                playlist,
            ))) by {
                if forall|j: int| 0 <= j < rest.len() ==> !module_accepts(#[trigger] rest[j], url, playlist) {
                    assert forall|i: int| 0 <= i < modules.len() implies !module_accepts(
                        #[trigger] modules[i],
                        url,
                        playlist,
                    ) by {
                        if i > 0 {
                            assert(modules[i] == rest[i - 1]);
                        }
                    }
                }
                if forall|i: int| 0 <= i < modules.len() ==> !module_accepts(#[trigger] modules[i], url, playlist) {
                    assert forall|j: int| 0 <= j < rest.len() implies !module_accepts(
                        #[trigger] rest[j],
                        url,
                        playlist,
                    ) by {
                        assert(modules[j + 1] == rest[j]);
                    }
                }
            }
            if let Some(m) = first_accepting(rest, url, playlist) {
                let j = choose|j: int| 0 <= j < rest.len() && rest[j] == m;
                assert(modules[j + 1] == m);
            }
        }
    }
}

} // verus!
