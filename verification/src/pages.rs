//! The two pages of the server: the index of an album and the frame around
//! one picture.

use vstd::prelude::*;
use vstd::string::StringExecFns;
use crate::album::{texts, Album, AlbumView};
use crate::http::HttpError;
use crate::names::{is_safe_name, remove_extension, stem};
use crate::numbers::{decimal, push_decimal};
use crate::params::Dimensions;
use crate::server::PhotoServer;

verus! {

/// What stands for a character in the text of a page.
pub open spec fn escaped_char(c: char) -> Seq<char> {
    if c == '&' {
        "&amp;"@
    } else if c == '<' {
        "&lt;"@
    } else if c == '>' {
        "&gt;"@
    } else {
        seq![c]
    }
}

/// A text as it stands in a page: with `&`, `<` and `>` replaced by their
/// entities, and every other character as it is.
pub open spec fn escaped(text: Seq<char>) -> Seq<char>
    decreases text.len(),
{
    if text.len() == 0 {
        Seq::empty()
    } else {
        escaped(text.drop_last()) + escaped_char(text.last())
    }
}

/// A text as it may stand in a page.
///
/// This is `html_escape::encode_text`, which replaces each `&` by `&amp;`,
/// each `<` by `&lt;` and each `>` by `&gt;`, and copies everything else.
#[verifier::external_body]
fn escape(text: &str) -> (safe: String)
    ensures
        safe@ == escaped(text@),
{
    html_escape::encode_text(text).into_owned()
}

/// Writes the escaped text at the end of `out`.
fn push_escaped(out: &mut String, text: &str)
    ensures
        final(out)@ == old(out)@ + escaped(text@),
{
    let safe = escape(text);
    out.append(safe.as_str());
}

/// An escaped text holds neither `<` nor `>`: nothing in it opens or closes
/// a tag.
pub proof fn lemma_escaped_has_no_tag(text: Seq<char>)
    ensures
        forall|i: int|
            0 <= i < escaped(text).len() ==> (#[trigger] escaped(text)[i]) != '<' && escaped(
                text,
            )[i] != '>',
    decreases text.len(),
{
    reveal_strlit("&amp;");
    reveal_strlit("&lt;");
    reveal_strlit("&gt;");
    if text.len() > 0 {
        let front = escaped(text.drop_last());
        let back = escaped_char(text.last());
        lemma_escaped_has_no_tag(text.drop_last());
        assert forall|i: int| 0 <= i < escaped(text).len() implies (#[trigger] escaped(text)[i])
            != '<' && escaped(text)[i] != '>' by {
            if i < front.len() {
                assert(escaped(text)[i] == front[i]);
            } else {
                assert(escaped(text)[i] == back[i - front.len()]);
            }
        }
    }
}

/// A safe name needs no escaping.
pub proof fn lemma_safe_name_is_escaped(name: Seq<char>)
    requires
        is_safe_name(name),
    ensures
        escaped(name) == name,
    decreases name.len(),
{
    if name.len() > 0 {
        let front = name.drop_last();
        assert forall|i: int| 0 <= i < front.len() implies crate::names::is_safe_char(
            #[trigger] front[i],
        ) by {
            assert(front[i] == name[i]);
        }
        lemma_safe_name_is_escaped(front);
        assert(crate::names::is_safe_char(name.last()));
        assert(escaped(name) =~= name);
    } else {
        assert(escaped(name) =~= name);
    }
}

/// The text of the readme as the index shows it; nothing where there is no
/// readme.
pub open spec fn readme_block(readme: Option<Seq<char>>) -> Seq<char> {
    match readme {
        Some(text) => "<pre>"@ + escaped(text) + "</pre>"@,
        None => Seq::empty(),
    }
}

/// The entry of a picture in the index: its thumbnail, linked to its frame
/// in the size that the index was asked for.
pub open spec fn jpeg_entry(name: Seq<char>, size: Dimensions) -> Seq<char> {
    "<a href=\""@ + escaped(name) + ".html"@ + size.query() + "\"><img src=\""@ + escaped(name)
        + ".thumb\"/></a>"@
}

/// The entry of another file in the index: a link to the file.
pub open spec fn other_entry(name: Seq<char>) -> Seq<char> {
    "<a href=\""@ + escaped(name) + "\">"@ + escaped(name) + "</a>"@
}

/// The entries of the pictures, one to a line.
pub open spec fn jpeg_entries(names: Seq<Seq<char>>, size: Dimensions) -> Seq<char>
    decreases names.len(),
{
    if names.len() == 0 {
        Seq::empty()
    } else if names.len() == 1 {
        jpeg_entry(names[0], size)
    } else {
        jpeg_entries(names.drop_last(), size) + "\n  "@ + jpeg_entry(names.last(), size)
    }
}

/// The entries of the other files, one to a line.
pub open spec fn other_entries(names: Seq<Seq<char>>) -> Seq<char>
    decreases names.len(),
{
    if names.len() == 0 {
        Seq::empty()
    } else if names.len() == 1 {
        other_entry(names[0])
    } else {
        other_entries(names.drop_last()) + "\n  "@ + other_entry(names.last())
    }
}

/// The index of an album: its name, a link upwards, the text of its readme,
/// its pictures and its other files, in the order of the album.
pub open spec fn index_page(
    dir_name: Seq<char>,
    album: AlbumView,
    readme: Option<Seq<char>>,
    size: Dimensions,
) -> Seq<char> {
    "<html>\n <head>\n  <title>"@ + escaped(dir_name) + "</title>\n </head>\n <body>\n  <h2>"@
        + escaped(dir_name) + "</h2>\n  <a href=\"..\">Up</a><br/>\n  "@ + readme_block(readme)
        + "\n  "@ + jpeg_entries(album.jpegs, size) + "\n  <br/>\n  "@ + other_entries(
        album.others,
    ) + "\n </body>\n</html>"@
}

/// The style sheet of a frame.
pub open spec fn stylesheet() -> Seq<char> {
    "body {background-color: #000000; color: #FFFFFF}\na:link {color: #8080FF}\na:visited {color: #C080FF}\ninput[type=\"text\"] {\nbackground-color: #404040; color: #FFFFFF;\nborder: thin solid #808080\n}"@
}

/// The frame around the picture `leaf_name` of the album `dir_name`: the
/// picture in the given size, links to its neighbours in the same size, to
/// the album and to the picture as it is on disk, and a form that asks for
/// the same frame in another size. `base_name` is the name of the picture
/// without its extension.
pub open spec fn frame_page(
    dir_name: Seq<char>,
    base_name: Seq<char>,
    leaf_name: Seq<char>,
    previous: Seq<char>,
    next: Seq<char>,
    size: Dimensions,
) -> Seq<char> {
    "<html>\n<head>\n<title>"@ + escaped(dir_name) + "/"@ + escaped(base_name)
        + "</title>\n<style type=\"text/css\">\n"@ + stylesheet()
        + "\n</style>\n</head>\n<body>\n<center><h3>"@ + escaped(dir_name) + "/"@ + escaped(
        base_name,
    ) + "</h3></center>\n<form action=\""@ + escaped(leaf_name)
        + ".html\" method=\"get\">\n<table align=\"center\" valign=\"center\">\n<tr>\n<td colspan=\"3\" align=\"center\">\n<a href=\""@
        + escaped(previous) + ".html"@ + size.query() + "\">previous</a>\n<a href=\""@ + escaped(
        next,
    ) + ".html"@ + size.query() + "\">next</a>\n<a href=\"."@ + size.query()
        + "\">up</a>\n<a href=\""@ + escaped(leaf_name)
        + "\">original</a>\n</td>\n</tr>\n<tr>\n<td colspan=\"3\" align=\"center\">\n<img src=\""@
        + escaped(leaf_name) + size.query()
        + "\"/>\n</td>\n</tr>\n<tr>\n<td>Width <input type=\"text\" name=\"w\" value=\""@ + decimal(
        size.w as nat,
    ) + "\"/></td>\n<td>Height <input type=\"text\" name=\"h\" value=\""@ + decimal(size.h as nat)
        + "\"/></td>\n<td><input type=\"submit\" value=\"Change size\"/></td>\n</tr>\n</table>\n</form>\n</body>\n</html>"@
}

fn push_jpeg_entry(out: &mut String, name: &str, size: Dimensions)
    ensures
        final(out)@ == old(out)@ + jpeg_entry(name@, size),
{
    out.append("<a href=\"");
    push_escaped(out, name);
    out.append(".html");
    size.push_query(out);
    out.append("\"><img src=\"");
    push_escaped(out, name);
    out.append(".thumb\"/></a>");
    assert(final(out)@ =~= old(out)@ + jpeg_entry(name@, size));
}

fn push_other_entry(out: &mut String, name: &str)
    ensures
        final(out)@ == old(out)@ + other_entry(name@),
{
    out.append("<a href=\"");
    push_escaped(out, name);
    out.append("\">");
    push_escaped(out, name);
    out.append("</a>");
    assert(final(out)@ =~= old(out)@ + other_entry(name@));
}

fn push_jpeg_entries(out: &mut String, names: &Vec<String>, size: Dimensions)
    ensures
        final(out)@ == old(out)@ + jpeg_entries(texts(names@), size),
{
    let ghost all = texts(names@);
    let mut i: usize = 0;
    assert(all.take(0) =~= Seq::empty());
    assert(out@ =~= old(out)@ + jpeg_entries(all.take(0), size));
    while i < names.len()
        invariant
            i <= names.len(),
            all == texts(names@),
            out@ == old(out)@ + jpeg_entries(all.take(i as int), size),
        decreases names.len() - i,
    {
        if i > 0 {
            out.append("\n  ");
        }
        push_jpeg_entry(out, names[i].as_str(), size);
        proof {
            let now = all.take(i + 1);
            assert(now.drop_last() =~= all.take(i as int));
            assert(now.last() == names@[i as int]@);
            if i == 0 {
                assert(jpeg_entries(all.take(0), size) =~= Seq::empty());
                assert(now[0] == names@[0]@);
            }
            assert(out@ =~= old(out)@ + jpeg_entries(now, size));
        }
        i = i + 1;
    }
    assert(all.take(names.len() as int) =~= all);
}

fn push_other_entries(out: &mut String, names: &Vec<String>)
    ensures
        final(out)@ == old(out)@ + other_entries(texts(names@)),
{
    let ghost all = texts(names@);
    let mut i: usize = 0;
    assert(all.take(0) =~= Seq::empty());
    assert(out@ =~= old(out)@ + other_entries(all.take(0)));
    while i < names.len()
        invariant
            i <= names.len(),
            all == texts(names@),
            out@ == old(out)@ + other_entries(all.take(i as int)),
        decreases names.len() - i,
    {
        if i > 0 {
            out.append("\n  ");
        }
        push_other_entry(out, names[i].as_str());
        proof {
            let now = all.take(i + 1);
            assert(now.drop_last() =~= all.take(i as int));
            assert(now.last() == names@[i as int]@);
            if i == 0 {
                assert(other_entries(all.take(0)) =~= Seq::empty());
                assert(now[0] == names@[0]@);
            }
            assert(out@ =~= old(out)@ + other_entries(now));
        }
        i = i + 1;
    }
    assert(all.take(names.len() as int) =~= all);
}

impl PhotoServer {
    /// Show thumbnails for all photos in a directory: the index of the album
    /// `dir_name`, with the text of its readme where the caller has read one,
    /// and with links to frames of the given size.
    pub fn index(dir_name: &str, album: &Album, readme: Option<&str>, size: Dimensions) -> (page:
        String)
        ensures
            page@ == index_page(
                dir_name@,
                album@,
                match readme {
                    Some(text) => Some(text@),
                    None => None,
                },
                size,
            ),
    {
        let mut out = String::new();
        out.append("<html>\n <head>\n  <title>");
        push_escaped(&mut out, dir_name);
        out.append("</title>\n </head>\n <body>\n  <h2>");
        push_escaped(&mut out, dir_name);
        out.append("</h2>\n  <a href=\"..\">Up</a><br/>\n  ");
        let ghost head = out@;
        match readme {
            Some(text) => {
                out.append("<pre>");
                push_escaped(&mut out, text);
                out.append("</pre>");
                assert(out@ =~= head + readme_block(Some(text@)));
            },
            None => {
                assert(out@ =~= head + readme_block(None));
            },
        }
        out.append("\n  ");
        push_jpeg_entries(&mut out, album.jpegs(), size);
        out.append("\n  <br/>\n  ");
        push_other_entries(&mut out, album.others());
        out.append("\n </body>\n</html>");
        assert(head =~= "<html>\n <head>\n  <title>"@ + escaped(dir_name@)
            + "</title>\n </head>\n <body>\n  <h2>"@ + escaped(dir_name@)
            + "</h2>\n  <a href=\"..\">Up</a><br/>\n  "@);
        out
    }
}

fn push_title(out: &mut String, dir_name: &str, base_name: &str)
    ensures
        final(out)@ == old(out)@ + escaped(dir_name@) + "/"@ + escaped(base_name@),
{
    push_escaped(out, dir_name);
    out.append("/");
    push_escaped(out, base_name);
}

fn push_frame_link(out: &mut String, name: &str, size: Dimensions)
    ensures
        final(out)@ == old(out)@ + escaped(name@) + ".html"@ + size.query(),
{
    push_escaped(out, name);
    out.append(".html");
    size.push_query(out);
}

/// Writes the page of a frame.
fn render_frame(
    dir_name: &str,
    base_name: &str,
    leaf_name: &str,
    previous: &str,
    next: &str,
    size: Dimensions,
) -> (page: String)
    ensures
        page@ == frame_page(dir_name@, base_name@, leaf_name@, previous@, next@, size),
{
    let mut out = String::new();
    out.append("<html>\n<head>\n<title>");
    assert(out@ =~= "<html>\n<head>\n<title>"@);
    push_title(&mut out, dir_name, base_name);
    out.append("</title>\n<style type=\"text/css\">\n");
    out.append(
        "body {background-color: #000000; color: #FFFFFF}\na:link {color: #8080FF}\na:visited {color: #C080FF}\ninput[type=\"text\"] {\nbackground-color: #404040; color: #FFFFFF;\nborder: thin solid #808080\n}",
    );
    out.append("\n</style>\n</head>\n<body>\n<center><h3>");
    push_title(&mut out, dir_name, base_name);
    out.append("</h3></center>\n<form action=\"");
    push_escaped(&mut out, leaf_name);
    out.append(
        ".html\" method=\"get\">\n<table align=\"center\" valign=\"center\">\n<tr>\n<td colspan=\"3\" align=\"center\">\n<a href=\"",
    );
    push_frame_link(&mut out, previous, size);
    out.append("\">previous</a>\n<a href=\"");
    push_frame_link(&mut out, next, size);
    out.append("\">next</a>\n<a href=\".");
    size.push_query(&mut out);
    out.append("\">up</a>\n<a href=\"");
    push_escaped(&mut out, leaf_name);
    out.append(
        "\">original</a>\n</td>\n</tr>\n<tr>\n<td colspan=\"3\" align=\"center\">\n<img src=\"",
    );
    push_escaped(&mut out, leaf_name);
    size.push_query(&mut out);
    out.append(
        "\"/>\n</td>\n</tr>\n<tr>\n<td>Width <input type=\"text\" name=\"w\" value=\"",
    );
    push_decimal(&mut out, size.w);
    out.append("\"/></td>\n<td>Height <input type=\"text\" name=\"h\" value=\"");
    push_decimal(&mut out, size.h);
    out.append(
        "\"/></td>\n<td><input type=\"submit\" value=\"Change size\"/></td>\n</tr>\n</table>\n</form>\n</body>\n</html>",
    );
    out
}

impl PhotoServer {
    /// Show an HTML frame around a single photo: the page for the picture
    /// `leaf_name` of the album `dir_name`, with links to the pictures before
    /// and after it. `NotFound` where the album has no such picture.
    pub fn frame(dir_name: &str, leaf_name: &str, album: &Album, size: Dimensions) -> (r: Result<
        String,
        HttpError,
    >)
        ensures
            r is Ok <==> album@.jpegs.contains(leaf_name@),
            r matches Ok(page) ==> {
                let at = album@.jpegs.index_of(leaf_name@);
                page@ == frame_page(
                    dir_name@,
                    stem(leaf_name@, "jpg"@),
                    leaf_name@,
                    album@.previous(at),
                    album@.next(at),
                    size,
                )
            },
            r matches Err(e) ==> e == HttpError::NotFound,
    {
        let (previous, next) = match album.previous_next(leaf_name) {
            Ok(neighbours) => neighbours,
            Err(_) => {
                return Err(HttpError::NotFound);
            },
        };
        proof {
            let at = album@.jpegs.index_of(leaf_name@);
            assert(album@.jpegs[at] == leaf_name@);
        }
        match remove_extension(leaf_name, "jpg") {
            Some(base_name) => Ok(render_frame(dir_name, base_name, leaf_name, previous, next, size)),
            None => Err(HttpError::NotFound),
        }
    }
}

} // verus!
