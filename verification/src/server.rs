//! The router: what a request asks for.

use vstd::prelude::*;
use crate::album::{is_jpeg, texts, Album};
use crate::http::HttpError;
use crate::names::{has_extension, is_safe_name, remove_extension, stem, validate_text};
use crate::params::{pair_texts, params_of, Dimensions, Params};
use crate::urls::{
    decode, join_url, path_segments, query_pairs, url_decoded, url_joined, url_path_segments,
    url_query_pairs,
};

verus! {

/// What a request asks for. Every name in a route is safe.
#[derive(Debug)]
pub enum Route {
    /// The index of the album `dir`, with links to frames of the size `size`.
    Index { dir: String, size: Dimensions },
    /// The picture `file` of the album `dir`, scaled to fit in `size`.
    Rescale { dir: String, file: String, size: Dimensions },
    /// The frame around the picture `file` of the album `dir`, which shows
    /// it in the size `size`. `file` is the name of the picture, with its
    /// extension.
    Frame { dir: String, file: String, size: Dimensions },
    /// The thumbnail of the picture `file` of the album `dir`. `file` is the
    /// name of the picture, with its extension.
    Thumb { dir: String, file: String },
    /// The file `file` of the album `dir`, as it is on disk.
    StaticFile { dir: String, file: String },
}

/// A route, with the text of its names.
pub enum RouteView {
    Index { dir: Seq<char>, size: Dimensions },
    Rescale { dir: Seq<char>, file: Seq<char>, size: Dimensions },
    Frame { dir: Seq<char>, file: Seq<char>, size: Dimensions },
    Thumb { dir: Seq<char>, file: Seq<char> },
    StaticFile { dir: Seq<char>, file: Seq<char> },
}

impl View for Route {
    type V = RouteView;

    open spec fn view(&self) -> RouteView {
        match self {
            Route::Index { dir, size } => RouteView::Index { dir: dir@, size: *size },
            Route::Rescale { dir, file, size } => RouteView::Rescale {
                dir: dir@,
                file: file@,
                size: *size,
            },
            Route::Frame { dir, file, size } => RouteView::Frame {
                dir: dir@,
                file: file@,
                size: *size,
            },
            Route::Thumb { dir, file } => RouteView::Thumb { dir: dir@, file: file@ },
            Route::StaticFile { dir, file } => RouteView::StaticFile { dir: dir@, file: file@ },
        }
    }
}

impl RouteView {
    /// The album that the route leads to.
    pub open spec fn dir(&self) -> Seq<char> {
        match self {
            RouteView::Index { dir, .. } => *dir,
            RouteView::Rescale { dir, .. } => *dir,
            RouteView::Frame { dir, .. } => *dir,
            RouteView::Thumb { dir, .. } => *dir,
            RouteView::StaticFile { dir, .. } => *dir,
        }
    }

    /// The file that the route leads to, where it leads to one.
    pub open spec fn file(&self) -> Option<Seq<char>> {
        match self {
            RouteView::Index { .. } => None,
            RouteView::Rescale { file, .. } => Some(*file),
            RouteView::Frame { file, .. } => Some(*file),
            RouteView::Thumb { file, .. } => Some(*file),
            RouteView::StaticFile { file, .. } => Some(*file),
        }
    }

    /// The names of the route are safe, and where the route is for a picture,
    /// its file has the name of one.
    pub open spec fn wf(&self) -> bool {
        &&& is_safe_name(self.dir())
        &&& self.file() matches Some(file) ==> is_safe_name(file)
        &&& self is Rescale || self is Frame || self is Thumb ==> is_jpeg(self.file().unwrap())
    }
}

/// The outcome of routing, with the text of the names of the route.
pub open spec fn outcome(r: Result<Route, HttpError>) -> Result<RouteView, HttpError> {
    match r {
        Ok(route) => Ok(route@),
        Err(e) => Err(e),
    }
}

/// The size that is served for the given parameters.
pub open spec fn granted(params: Params) -> Dimensions {
    Dimensions {
        w: crate::params::granted_side(params.w, crate::params::DEFAULT_WIDTH),
        h: crate::params::granted_side(params.h, crate::params::DEFAULT_HEIGHT),
    }
}

/// What a request for `leaf` in the album `dir` asks for, going by the end
/// of the name, the longest ending first: a picture with a size is scaled,
/// `.jpg.html` is the frame of a picture and `.jpg.thumb` its thumbnail, and
/// everything else is a file to serve as it is, a picture without a size
/// among them.
pub open spec fn classified(dir: Seq<char>, leaf: Seq<char>, params: Params) -> RouteView {
    if is_jpeg(leaf) {
        if params.asks_for_size() {
            RouteView::Rescale { dir, file: leaf, size: granted(params) }
        } else {
            RouteView::StaticFile { dir, file: leaf }
        }
    } else if has_extension(leaf, "html"@) {
        if is_jpeg(stem(leaf, "html"@)) {
            RouteView::Frame { dir, file: stem(leaf, "html"@), size: granted(params) }
        } else {
            RouteView::StaticFile { dir, file: leaf }
        }
    } else if has_extension(leaf, "thumb"@) && is_jpeg(stem(leaf, "thumb"@)) {
        RouteView::Thumb { dir, file: stem(leaf, "thumb"@) }
    } else {
        RouteView::StaticFile { dir, file: leaf }
    }
}

/// The path of a request: its segments, without the empty one that a slash
/// at the end leaves behind.
pub open spec fn path_of(segments: Seq<Seq<char>>) -> Seq<Seq<char>> {
    if segments.len() > 0 && segments.last().len() == 0 {
        segments.drop_last()
    } else {
        segments
    }
}

/// What a request asks for, given its path and its parameters. Only
/// retrieval is served; the first segment names the album and must be there;
/// it and the second, which names a file or a view of one, must be safe
/// names; further segments are not looked at.
pub open spec fn route_of(is_get: bool, path: Seq<Seq<char>>, params: Params) -> Result<
    RouteView,
    HttpError,
> {
    if !is_get || path.len() == 0 || !is_safe_name(path[0]) {
        Err(HttpError::Invalid)
    } else if path.len() == 1 {
        Ok(RouteView::Index { dir: path[0], size: granted(params) })
    } else if !is_safe_name(path[1]) {
        Err(HttpError::Invalid)
    } else {
        Ok(classified(path[0], path[1], params))
    }
}

/// The texts of a list of texts, each with its percent-escapes resolved.
pub open spec fn all_decoded(list: Seq<Seq<char>>) -> Seq<Seq<char>> {
    Seq::new(list.len(), |i: int| url_decoded(list[i]))
}

/// The pairs of a query string, each key and value with its percent-escapes
/// resolved.
pub open spec fn pairs_decoded(pairs: Seq<(Seq<char>, Seq<char>)>) -> Seq<(Seq<char>, Seq<char>)> {
    Seq::new(pairs.len(), |i: int| (url_decoded(pairs[i].0), url_decoded(pairs[i].1)))
}

/// The path and the query string of a request, with the text of their
/// parts.
pub struct TargetView {
    /// The decoded segments of the path.
    pub path: Seq<Seq<char>>,
    /// The decoded keys and values of the query string, in their order.
    pub pairs: Seq<(Seq<char>, Seq<char>)>,
}

/// The path and the query string of the request for `target` to a server
/// whose own URL is `base`: the target is resolved against the base, the
/// path of the resulting URL is split, its query string is parsed, and
/// percent-escapes are resolved in every part. `None` where the target
/// cannot be resolved or the resulting URL has no path to split.
pub open spec fn resolved(base: Seq<char>, target: Seq<char>) -> Option<TargetView> {
    match url_joined(base, target) {
        None => None,
        Some(url) => match url_path_segments(url) {
            None => None,
            Some(segments) => Some(
                TargetView {
                    path: path_of(all_decoded(segments)),
                    pairs: pairs_decoded(url_query_pairs(url)),
                },
            ),
        },
    }
}

/// What the request for `target` asks of a server whose own URL is `base`.
/// A request whose target cannot be resolved is invalid.
pub open spec fn request_route(base: Seq<char>, is_get: bool, target: Seq<char>) -> Result<
    RouteView,
    HttpError,
> {
    if !is_get {
        Err(HttpError::Invalid)
    } else {
        match resolved(base, target) {
            None => Err(HttpError::Invalid),
            Some(found) => route_of(is_get, found.path, params_of(found.pairs)),
        }
    }
}

/// Every route names safe files only, and a picture where it is for one.
pub proof fn lemma_routes_are_safe(is_get: bool, path: Seq<Seq<char>>, params: Params)
    ensures
        route_of(is_get, path, params) matches Ok(route) ==> route.wf(),
{
    if let Ok(route) = route_of(is_get, path, params) {
        if path.len() > 1 {
            let leaf = path[1];
            assert forall|ext: Seq<char>| has_extension(leaf, ext) implies is_safe_name(
                #[trigger] stem(leaf, ext),
            ) by {
                assert forall|i: int| 0 <= i < stem(leaf, ext).len() implies crate::names::is_safe_char(
                    #[trigger] stem(leaf, ext)[i],
                ) by {
                    assert(stem(leaf, ext)[i] == leaf[i]);
                }
            }
        }
    }
}

fn decode_all(list: &Vec<String>) -> (decoded: Vec<String>)
    ensures
        texts(decoded@) == all_decoded(texts(list@)),
{
    let mut decoded: Vec<String> = Vec::new();
    let mut i: usize = 0;
    while i < list.len()
        invariant
            i <= list.len(),
            decoded.len() == i,
            forall|k: int| 0 <= k < i ==> (#[trigger] decoded@[k])@ == url_decoded(list@[k]@),
        decreases list.len() - i,
    {
        decoded.push(decode(list[i].as_str()));
        i = i + 1;
    }
    assert(texts(decoded@) =~= all_decoded(texts(list@)));
    decoded
}

fn decode_pairs(pairs: &Vec<(String, String)>) -> (decoded: Vec<(String, String)>)
    ensures
        pair_texts(decoded@) == pairs_decoded(pair_texts(pairs@)),
{
    let mut decoded: Vec<(String, String)> = Vec::new();
    let mut i: usize = 0;
    while i < pairs.len()
        invariant
            i <= pairs.len(),
            decoded.len() == i,
            forall|k: int|
                0 <= k < i ==> (#[trigger] decoded@[k]).0@ == url_decoded(pairs@[k].0@)
                    && decoded@[k].1@ == url_decoded(pairs@[k].1@),
        decreases pairs.len() - i,
    {
        let key = decode(pairs[i].0.as_str());
        let value = decode(pairs[i].1.as_str());
        decoded.push((key, value));
        i = i + 1;
    }
    assert(pair_texts(decoded@) =~= pairs_decoded(pair_texts(pairs@)));
    decoded
}

/// Finds out what a request asks for, given its path and its parameters.
pub fn route(is_get: bool, path: &Vec<String>, params: &Params) -> (r: Result<Route, HttpError>)
    ensures
        outcome(r) == route_of(is_get, texts(path@), *params),
        r matches Ok(route) ==> route@.wf(),
{
    proof {
        lemma_routes_are_safe(is_get, texts(path@), *params);
    }
    if !is_get {
        return Err(HttpError::Invalid);
    }
    let count: usize = path.len();
    if count == 0 {
        return Err(HttpError::Invalid);
    }
    let dir = match validate_text(path[0].as_str()) {
        Ok(dir) => dir,
        Err(e) => {
            return Err(HttpError::from(e));
        },
    };
    let size = params.get_dimensions();
    if count == 1 {
        return Ok(Route::Index { dir: dir.to_owned(), size });
    }
    let leaf = match validate_text(path[1].as_str()) {
        Ok(leaf) => leaf,
        Err(e) => {
            return Err(HttpError::from(e));
        },
    };
    if remove_extension(leaf, "jpg").is_some() {
        if params.w.is_some() || params.h.is_some() {
            return Ok(Route::Rescale { dir: dir.to_owned(), file: leaf.to_owned(), size });
        }
    } else if let Some(jpeg_name) = remove_extension(leaf, "html") {
        if remove_extension(jpeg_name, "jpg").is_some() {
            return Ok(Route::Frame { dir: dir.to_owned(), file: jpeg_name.to_owned(), size });
        }
    } else if let Some(jpeg_name) = remove_extension(leaf, "thumb") {
        if remove_extension(jpeg_name, "jpg").is_some() {
            return Ok(Route::Thumb { dir: dir.to_owned(), file: jpeg_name.to_owned() });
        }
    }
    Ok(Route::StaticFile { dir: dir.to_owned(), file: leaf.to_owned() })
}

/// The path and the query string of a request.
#[derive(Debug)]
pub struct Target {
    /// The decoded segments of the path, without the empty one that a slash
    /// at the end leaves behind.
    pub path: Vec<String>,
    /// The decoded keys and values of the query string, in their order.
    pub pairs: Vec<(String, String)>,
}

impl View for Target {
    type V = TargetView;

    open spec fn view(&self) -> TargetView {
        TargetView { path: texts(self.path@), pairs: pair_texts(self.pairs@) }
    }
}

/// The path and the query string of a request, where it has them.
pub open spec fn option_target(found: Option<Target>) -> Option<TargetView> {
    match found {
        Some(found) => Some(found@),
        None => None,
    }
}

/// Resolves the target of a request against the URL of the server and takes
/// the resulting URL apart; `None` where that cannot be done.
pub fn resolve(base_url: &str, target: &str) -> (found: Option<Target>)
    ensures
        option_target(found) == resolved(base_url@, target@),
{
    let absolute_url = match join_url(base_url, target) {
        Some(url) => url,
        None => {
            return None;
        },
    };
    let pairs = decode_pairs(&query_pairs(absolute_url.as_str()));
    let mut path = match path_segments(absolute_url.as_str()) {
        Some(segments) => decode_all(&segments),
        None => {
            return None;
        },
    };
    let ghost segments = texts(path@);
    let count: usize = path.len();
    if count > 0 && path[count - 1].as_str().is_empty() {
        path.pop();
        assert(texts(path@) =~= segments.drop_last());
    }
    Some(Target { path, pairs })
}

/// The part of a photo server that needs neither disk nor network.
#[derive(Debug)]
pub struct PhotoServer {
    /// The external URL of the server.
    pub base_url: String,
}

impl PhotoServer {
    /// A server that is reached under `base_url`.
    pub fn new(base_url: &str) -> (server: PhotoServer)
        ensures
            server.base_url@ == base_url@,
    {
        PhotoServer { base_url: base_url.to_owned() }
    }

    /// Handle a single request: finds out what the request for `target`
    /// asks for. `is_get` says whether its method is the one for retrieval.
    pub fn handle_request(&self, is_get: bool, target: &str) -> (r: Result<Route, HttpError>)
        ensures
            outcome(r) == request_route(self.base_url@, is_get, target@),
            r matches Ok(route) ==> route@.wf(),
    {
        if !is_get {
            return Err(HttpError::Invalid);
        }
        match resolve(self.base_url.as_str(), target) {
            Some(found) => route(is_get, &found.path, &Params::from_pairs(&found.pairs)),
            None => Err(HttpError::Invalid),
        }
    }
}

} // verus!
