//! Static assets: files held in memory under their paths, and the answer
//! to a request for one.

use vstd::prelude::*;
use vstd::slice::*;
use vstd::string::*;
use vstd::utf8::*;
use crate::encoder::HeaderView;
use crate::reply::{plain_reply, text_header, Reply, ReplyView};
use crate::text::{ascii, ascii_bytes, same_bytes};

verus! {

/// One file: its path, which begins with a slash, and what it holds.
#[derive(Clone, Debug, PartialEq, Eq)]
pub struct Asset {
    pub path: Vec<u8>,
    pub contents: Vec<u8>,
}

/// The files that the server hands out, each under one path.
pub struct Assets {
    files: Vec<Asset>,
}

/// The paths of `files`, in their order.
pub open spec fn paths_of(files: Seq<Asset>) -> Seq<Seq<u8>> {
    files.map_values(|asset: Asset| asset.path@)
}

impl View for Assets {
    type V = Map<Seq<u8>, Seq<u8>>;

    closed spec fn view(&self) -> Map<Seq<u8>, Seq<u8>> {
        Map::new(
            |path: Seq<u8>| paths_of(self.files@).contains(path),
            |path: Seq<u8>| self.files@[paths_of(self.files@).index_of(path)].contents@,
        )
    }
}

impl Assets {
    /// No path occurs twice.
    #[verifier::type_invariant]
    spec fn distinct(self) -> bool {
        paths_of(self.files@).no_duplicates()
    }

    /// No files.
    pub fn new() -> (assets: Assets)
        ensures
            assets@ == Map::<Seq<u8>, Seq<u8>>::empty(),
    {
        let assets = Assets { files: Vec::new() };
        assert(paths_of(assets.files@) == Seq::<Seq<u8>>::empty());
        assert(assets@ =~= Map::<Seq<u8>, Seq<u8>>::empty());
        assets
    }

    /// The number of files.
    pub fn len(&self) -> (n: usize)
        ensures
            self@.dom().finite(),
            n == self@.len(),
    {
        proof {
            use_type_invariant(self);
            let paths = paths_of(self.files@);
            paths.unique_seq_to_set();
            assert(self@.dom() =~= paths.to_set());
        }
        self.files.len()
    }

    /// Where the file under `path` stands, if there is one.
    fn position(&self, path: &[u8]) -> (found: Option<usize>)
        ensures
            match found {
                Some(at) => at < self.files.len() && self.files[at as int].path@ == path@,
                None => !paths_of(self.files@).contains(path@),
            },
    {
        let mut i: usize = 0;
        while i < self.files.len()
            invariant
                i <= self.files.len(),
                forall|j: int| 0 <= j < i ==> self.files[j].path@ != path@,
            decreases self.files.len() - i,
        {
            if same_bytes(self.files[i].path.as_slice(), path) {
                return Some(i);
            }
            i += 1;
        }
        None
    }

    /// The file under `path`, if there is one.
    pub fn get(&self, path: &[u8]) -> (found: Option<&Vec<u8>>)
        ensures
            match found {
                Some(contents) => self@.contains_key(path@) && self@[path@] == contents@,
                None => !self@.contains_key(path@),
            },
    {
        proof {
            use_type_invariant(self);
        }
        match self.position(path) {
            Some(at) => {
                let ghost paths = paths_of(self.files@);
                assert(paths[at as int] == path@);
                assert(paths.contains(path@));
                assert(paths.index_of(path@) == at);
                Some(&self.files[at].contents)
            },
            None => None,
        }
    }

    /// Puts a file under `path`, in place of one that was there.
    pub fn insert(&mut self, path: Vec<u8>, contents: Vec<u8>)
        ensures
            final(self)@ == old(self)@.insert(path@, contents@),
    {
        proof {
            use_type_invariant(&*self);
        }
        let ghost before = self.files@;
        let ghost held = *self;
        let found = self.position(path.as_slice());
        let asset = Asset { path, contents };
        let mut taken = Assets::new();
        std::mem::swap(self, &mut taken);
        let mut files = taken.files;
        match found {
            Some(at) => {
                files.set(at, asset);
                assert(paths_of(files@) == paths_of(before));
            },
            None => {
                files.push(asset);
                assert(paths_of(files@) == paths_of(before).push(asset.path@));
            },
        }
        *self = Assets { files };
        proof {
            let paths = paths_of(self.files@);
            let old_paths = paths_of(before);
            let target = held@.insert(asset.path@, asset.contents@);
            assert(paths.len() == self.files@.len());
            assert(paths.no_duplicates()) by {
                assert forall|i: int, j: int|
                    0 <= i < paths.len() && 0 <= j < paths.len() && i != j implies paths[i]
                    != paths[j] by {
                    if i < old_paths.len() && j < old_paths.len() {
                        assert(old_paths[i] != old_paths[j]);
                    } else if i < old_paths.len() {
                        assert(old_paths.contains(old_paths[i]));
                    } else {
                        assert(old_paths.contains(old_paths[j]));
                    }
                }
            }
            assert forall|p: Seq<u8>| #[trigger] self@.contains_key(p) implies target.contains_key(p)
                && self@[p] == target[p] by {
                let at = paths.index_of(p);
                assert(0 <= at < paths.len() && paths[at] == p);
                if p != asset.path@ {
                    assert(at < old_paths.len() && old_paths[at] == p);
                    assert(old_paths.contains(p));
                    let was = old_paths.index_of(p);
                    assert(0 <= was < old_paths.len() && old_paths[was] == p);
                    assert(was == at);
                    assert(self.files@[at] == before[at]);
                } else {
                    match found {
                        Some(put) => {
                            assert(paths[put as int] == p);
                            assert(at == put);
                        },
                        None => {
                            assert(paths[paths.len() - 1] == p);
                            assert(at == paths.len() - 1);
                        },
                    }
                }
            }
            assert forall|p: Seq<u8>| #[trigger] target.contains_key(p) implies self@.contains_key(
                p,
            ) by {
                if p != asset.path@ {
                    assert(old_paths.contains(p));
                    let at = old_paths.index_of(p);
                    assert(0 <= at < old_paths.len() && old_paths[at] == p);
                    assert(paths[at] == p);
                } else {
                    match found {
                        Some(put) => {
                            assert(paths[put as int] == p);
                        },
                        None => {
                            assert(paths[paths.len() - 1] == p);
                        },
                    }
                }
            }
            assert(self@ =~= held@.insert(asset.path@, asset.contents@));
        }
    }
}

/// `mime_guess::from_path` and `first_or_text_plain` on its guess, as a
/// text: the media type that the extension of `path` suggests, and
/// `text/plain` where it suggests none. The platform's path rules say
/// what the extension is, so nothing is stated of the guess.
#[verifier::external_body]
fn guess_media_type(path: &str) -> (guess: String) {
    mime_guess::from_path(path).first_or_text_plain().to_string()
}

/// The answer that hands out a file as `media_type`.
pub open spec fn asset_reply_of(contents: Seq<u8>, media_type: Seq<char>) -> ReplyView {
    ReplyView {
        status: 200,
        headers: seq![text_header("Content-Type"@, media_type)],
        body: contents,
    }
}

/// Builds the answer that hands out a file as `media_type`.
pub fn asset_reply(contents: &[u8], media_type: &str) -> (reply: Reply)
    ensures
        reply@ == asset_reply_of(contents@, media_type@),
{
    let mut reply = Reply { status: 200, headers: Vec::new(), body: slice_to_vec(contents) };
    assert(reply@.headers == Seq::<HeaderView>::empty());
    reply.push_header("Content-Type", media_type);
    assert(reply@.headers == asset_reply_of(contents@, media_type@).headers);
    reply
}

/// Whether `reply` answers a request for `path` out of `assets`: with
/// the file under `path`, under a media type that is left open; without
/// one, with the file under `fallback`, as a page; without that either,
/// with an error whose body is `not_found`.
pub open spec fn serves(
    assets: Map<Seq<u8>, Seq<u8>>,
    path: Seq<u8>,
    fallback: Seq<u8>,
    not_found: Seq<char>,
    reply: ReplyView,
) -> bool {
    if assets.contains_key(path) {
        exists|media_type: Seq<char>| reply == asset_reply_of(assets[path], media_type)
    } else if assets.contains_key(fallback) {
        reply == asset_reply_of(assets[fallback], "text/html"@)
    } else {
        reply == plain_reply(404, not_found)
    }
}

/// Answers a request for the asset at `path`. The file under `fallback`
/// stands in for one that is missing; where that is missing too, the
/// answer says `not_found`.
pub fn serve_asset(assets: &Assets, path: &str, fallback: &[u8], not_found: &str) -> (reply: Reply)
    ensures
        serves(assets@, encode_utf8(path@), fallback@, not_found@, reply@),
{
    match assets.get(path.as_bytes()) {
        Some(contents) => {
            let guess = guess_media_type(path);
            asset_reply(contents.as_slice(), guess.as_str())
        },
        None => match assets.get(fallback) {
            Some(contents) => asset_reply(contents.as_slice(), "text/html"),
            None => Reply::plain(404, not_found),
        },
    }
}

/// `path` without the slashes at its end.
pub open spec fn without_trailing_slashes(path: Seq<u8>) -> Seq<u8>
    decreases path.len(),
{
    if path.len() > 0 && path.last() == 47 {
        without_trailing_slashes(path.drop_last())
    } else {
        path
    }
}

/// The path of the index page of the directory at `path`.
pub open spec fn directory_index_of(path: Seq<u8>) -> Seq<u8> {
    without_trailing_slashes(path) + ascii("/index.html"@)
}

/// Builds the path of the index page of the directory at `path`.
pub fn directory_index(path: &[u8]) -> (index: Vec<u8>)
    ensures
        index@ == directory_index_of(path@),
{
    let mut end: usize = path.len();
    assert(path@.take(end as int) == path@);
    while end > 0 && path[end - 1] == 47
        invariant
            end <= path.len(),
            without_trailing_slashes(path@) == without_trailing_slashes(path@.take(end as int)),
        decreases end,
    {
        assert(path@.take(end as int).drop_last() == path@.take(end - 1));
        end -= 1;
    }
    proof {
        reveal_strlit("/index.html");
    }
    let mut index = slice_to_vec(slice_subrange(path, 0, end));
    let mut suffix = slice_to_vec(ascii_bytes("/index.html"));
    index.append(&mut suffix);
    index
}

/// The path under which the file named `filename` is kept: the name
/// after a slash.
pub open spec fn file_path(filename: Seq<char>) -> Seq<u8> {
    encode_utf8("/"@ + filename)
}

/// Answers a request for the file named `filename`: with that file; without
/// one, with the index page of the directory of that name; without that
/// either, with an error.
pub fn handle_file(assets: &Assets, filename: &str) -> (reply: Reply)
    ensures
        serves(
            assets@,
            file_path(filename@),
            directory_index_of(file_path(filename@)),
            "404 Not Found"@,
            reply@,
        ),
{
    let path = String::from_str("/").concat(filename);
    let fallback = directory_index(path.as_str().as_bytes());
    serve_asset(assets, path.as_str(), fallback.as_slice(), "404 Not Found")
}

} // verus!
