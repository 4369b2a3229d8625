//! The listing of an album: which of its files are pictures, in which order
//! they are shown, and which picture comes before and after another.

use vstd::prelude::*;
use vstd::string::{is_ascii, is_ascii_spec_bytes, StringSliceAdditionalSpecFns};
use crate::http::HttpError;
use vstd::utf8::is_ascii_chars;
use crate::names::{
    all_safe_bytes, ascii_text, has_extension, is_safe_char, is_safe_name, remove_extension,
    str_eq, suffix, validate_name, DubiousFilename,
};

verus! {

/// The order of the names in a listing: character by character, the shorter
/// of two names first where one begins the other. For safe names this is the
/// order of their bytes.
pub open spec fn name_lt(a: Seq<char>, b: Seq<char>) -> bool
    decreases a.len(),
{
    if b.len() == 0 {
        false
    } else if a.len() == 0 {
        true
    } else if a[0] == b[0] {
        name_lt(a.skip(1), b.skip(1))
    } else {
        a[0] < b[0]
    }
}

/// No name comes before itself.
pub proof fn lemma_name_lt_irreflexive(a: Seq<char>)
    ensures
        !name_lt(a, a),
    decreases a.len(),
{
    if a.len() > 0 {
        lemma_name_lt_irreflexive(a.skip(1));
    }
}

/// The order of names is transitive.
pub proof fn lemma_name_lt_transitive(a: Seq<char>, b: Seq<char>, c: Seq<char>)
    requires
        name_lt(a, b),
        name_lt(b, c),
    ensures
        name_lt(a, c),
    decreases a.len(),
{
    if a.len() > 0 && a[0] == b[0] && b[0] == c[0] {
        lemma_name_lt_transitive(a.skip(1), b.skip(1), c.skip(1));
    }
}

/// Of two different names one comes before the other.
pub proof fn lemma_name_lt_total(a: Seq<char>, b: Seq<char>)
    ensures
        a == b || name_lt(a, b) || name_lt(b, a),
    decreases a.len(),
{
    if a.len() > 0 && b.len() > 0 && a[0] == b[0] {
        lemma_name_lt_total(a.skip(1), b.skip(1));
        if a.skip(1) == b.skip(1) {
            assert(a =~= seq![a[0]] + a.skip(1));
            assert(b =~= seq![b[0]] + b.skip(1));
        }
    } else if a.len() == 0 && b.len() == 0 {
        assert(a =~= b);
    }
}

/// Each name comes before all that follow it: the names are in order and
/// none occurs twice.
pub open spec fn strictly_sorted(names: Seq<Seq<char>>) -> bool {
    forall|i: int, j: int| 0 <= i < j < names.len() ==> name_lt(#[trigger] names[i], #[trigger] names[j])
}

/// The name of the file whose text is shown above the pictures.
pub open spec fn readme_name() -> Seq<char> {
    "README.txt"@
}

/// A name that stands for a picture.
pub open spec fn is_jpeg(name: Seq<char>) -> bool {
    has_extension(name, "jpg"@)
}

/// A name that is listed below the pictures: neither a picture nor the
/// readme.
pub open spec fn is_other(name: Seq<char>) -> bool {
    name != readme_name() && !is_jpeg(name)
}

/// The texts of a list of strings.
pub open spec fn texts(names: Seq<String>) -> Seq<Seq<char>> {
    Seq::new(names.len(), |i: int| names[i]@)
}

/// The texts that a list of raw names spells.
pub open spec fn raw_texts(raw: Seq<Vec<u8>>) -> Seq<Seq<char>> {
    Seq::new(raw.len(), |i: int| ascii_text(raw[i]@))
}

/// What an album holds.
pub struct AlbumView {
    /// The name of the readme, where the album has one.
    pub readme: Option<Seq<char>>,
    /// The pictures, in the order in which they are shown.
    pub jpegs: Seq<Seq<char>>,
    /// The other files, in the order in which they are shown.
    pub others: Seq<Seq<char>>,
}

impl AlbumView {
    /// Every name is safe, the readme has its one name, the pictures are
    /// the names with the extension `jpg`, and both lists are in order
    /// without a name twice.
    pub open spec fn wf(&self) -> bool {
        &&& self.readme is Some ==> self.readme == Some(readme_name())
        &&& strictly_sorted(self.jpegs)
        &&& strictly_sorted(self.others)
        &&& forall|i: int|
            0 <= i < self.jpegs.len() ==> is_safe_name(#[trigger] self.jpegs[i]) && is_jpeg(
                self.jpegs[i],
            )
        &&& forall|i: int|
            0 <= i < self.others.len() ==> is_safe_name(#[trigger] self.others[i]) && is_other(
                self.others[i],
            )
    }

    /// The album lists exactly the given names of a directory, each in its
    /// place.
    pub open spec fn lists(&self, names: Seq<Seq<char>>) -> bool {
        &&& self.readme is Some <==> names.contains(readme_name())
        &&& forall|name: Seq<char>| #[trigger]
            self.jpegs.contains(name) <==> names.contains(name) && is_jpeg(name)
        &&& forall|name: Seq<char>| #[trigger]
            self.others.contains(name) <==> names.contains(name) && is_other(name)
    }

    /// The picture shown before the one at `i`; before the first comes the
    /// last.
    pub open spec fn previous(&self, i: int) -> Seq<char> {
        self.jpegs[if i == 0 {
            self.jpegs.len() - 1
        } else {
            i - 1
        }]
    }

    /// The picture shown after the one at `i`; after the last comes the
    /// first.
    pub open spec fn next(&self, i: int) -> Seq<char> {
        self.jpegs[if i + 1 == self.jpegs.len() {
            0
        } else {
            i + 1
        }]
    }
}

/// Contents of an album directory.
#[derive(Debug)]
pub struct Album {
    readme: Option<String>,
    jpegs: Vec<String>,
    others: Vec<String>,
}

impl View for Album {
    type V = AlbumView;

    closed spec fn view(&self) -> AlbumView {
        AlbumView {
            readme: match self.readme {
                Some(name) => Some(name@),
                None => None,
            },
            jpegs: texts(self.jpegs@),
            others: texts(self.others@),
        }
    }
}

/// A safe name is made of ASCII characters.
proof fn lemma_safe_is_ascii(name: Seq<char>)
    requires
        is_safe_name(name),
    ensures
        is_ascii_chars(name),
{
    assert forall|i: int| 0 <= i < name.len() implies '\0' <= #[trigger] name[i] <= '\u{7f}' by {
        assert(is_safe_char(name[i]));
    }
}

/// Whether `a` comes before `b` in a listing.
fn name_before(a: &str, b: &str) -> (before: bool)
    requires
        is_ascii(a),
        is_ascii(b),
    ensures
        before == name_lt(a@, b@),
{
    let x = a.as_bytes();
    let y = b.as_bytes();
    proof {
        is_ascii_spec_bytes(a);
        is_ascii_spec_bytes(b);
    }
    let mut i: usize = 0;
    assert(a@.skip(0) =~= a@ && b@.skip(0) =~= b@);
    while i < x.len() && i < y.len()
        invariant
            i <= x.len() == a@.len(),
            i <= y.len() == b@.len(),
            is_ascii(a),
            is_ascii(b),
            forall|k: int| 0 <= k < x.len() ==> x@[k] == a@[k] as u8,
            forall|k: int| 0 <= k < y.len() ==> y@[k] == b@[k] as u8,
            name_lt(a@, b@) == name_lt(a@.skip(i as int), b@.skip(i as int)),
        decreases x.len() - i,
    {
        let ghost s = a@.skip(i as int);
        let ghost t = b@.skip(i as int);
        assert(s[0] == a@[i as int] && t[0] == b@[i as int]);
        assert('\0' <= a@[i as int] <= '\u{7f}' && '\0' <= b@[i as int] <= '\u{7f}');
        if x[i] != y[i] {
            return x[i] < y[i];
        }
        assert(s.skip(1) =~= a@.skip(i + 1));
        assert(t.skip(1) =~= b@.skip(i + 1));
        i = i + 1;
    }
    assert(a@.skip(i as int).len() == a@.len() - i);
    assert(b@.skip(i as int).len() == b@.len() - i);
    i < y.len()
}

/// Where `name` stands in a sorted list, or would stand: the number of names
/// that come before it.
fn position(list: &Vec<String>, name: &str) -> (at: usize)
    requires
        is_ascii(name),
        strictly_sorted(texts(list@)),
        forall|i: int| 0 <= i < list.len() ==> is_safe_name(#[trigger] list@[i]@),
    ensures
        at <= list.len(),
        forall|i: int| 0 <= i < at ==> name_lt(#[trigger] texts(list@)[i], name@),
        forall|i: int| at <= i < list.len() ==> !name_lt(#[trigger] texts(list@)[i], name@),
{
    let ghost names = texts(list@);
    let mut low: usize = 0;
    let mut high: usize = list.len();
    while low < high
        invariant
            low <= high <= list.len(),
            names == texts(list@),
            is_ascii(name),
            strictly_sorted(names),
            forall|i: int| 0 <= i < list.len() ==> is_safe_name(#[trigger] list@[i]@),
            forall|i: int| 0 <= i < low ==> name_lt(#[trigger] names[i], name@),
            forall|i: int| high <= i < list.len() ==> !name_lt(#[trigger] names[i], name@),
        decreases high - low,
    {
        let middle: usize = low + (high - low) / 2;
        let here = list[middle].as_str();
        proof {
            lemma_safe_is_ascii(here@);
            assert(names[middle as int] == here@);
        }
        if name_before(here, name) {
            assert forall|i: int| 0 <= i < middle + 1 implies name_lt(
                #[trigger] names[i],
                name@,
            ) by {
                if i < middle {
                    lemma_name_lt_transitive(names[i], names[middle as int], name@);
                }
            }
            low = middle + 1;
        } else {
            assert forall|i: int| middle <= i < list.len() implies !name_lt(
                #[trigger] names[i],
                name@,
            ) by {
                if i > middle && name_lt(names[i], name@) {
                    lemma_name_lt_transitive(names[middle as int], names[i], name@);
                }
            }
            high = middle;
        }
    }
    low
}

/// Puts `name` in its place in a sorted list, unless the list has it.
fn insert_sorted(list: &mut Vec<String>, name: &str)
    requires
        is_safe_name(name@),
        strictly_sorted(texts(old(list)@)),
        forall|i: int| 0 <= i < old(list).len() ==> is_safe_name(#[trigger] old(list)@[i]@),
    ensures
        strictly_sorted(texts(final(list)@)),
        forall|i: int| 0 <= i < final(list).len() ==> is_safe_name(#[trigger] final(list)@[i]@),
        forall|other: Seq<char>| #[trigger]
            texts(final(list)@).contains(other) <==> texts(old(list)@).contains(other) || other
                == name@,
{
    proof {
        lemma_safe_is_ascii(name@);
    }
    let ghost before = texts(list@);
    let at = position(list, name);
    if at < list.len() {
        let here = list[at].as_str();
        proof {
            lemma_safe_is_ascii(here@);
            assert(before[at as int] == here@);
        }
        if !name_before(name, here) {
            proof {
                lemma_name_lt_total(name@, here@);
                assert(before.contains(name@));
            }
            return ;
        }
    }
    list.insert(at, name.to_owned());
    proof {
        let after = texts(list@);
        assert(after =~= before.insert(at as int, name@));
        assert forall|i: int, j: int| 0 <= i < j < after.len() implies name_lt(
            #[trigger] after[i],
            #[trigger] after[j],
        ) by {
            if j < at {
                assert(after[i] == before[i] && after[j] == before[j]);
            } else if j == at {
                assert(after[i] == before[i]);
            } else if i < at {
                assert(after[i] == before[i] && after[j] == before[j - 1]);
                if j - 1 > at {
                    assert(name_lt(before[i], before[j - 1]));
                } else {
                    lemma_name_lt_transitive(before[i], name@, before[at as int]);
                }
            } else if i == at {
                assert(after[j] == before[j - 1]);
                if j - 1 > at {
                    lemma_name_lt_transitive(name@, before[at as int], before[j - 1]);
                }
            } else {
                assert(after[i] == before[i - 1] && after[j] == before[j - 1]);
            }
        }
        assert forall|other: Seq<char>| #[trigger]
            after.contains(other) <==> before.contains(other) || other == name@ by {
            if before.contains(other) {
                let k = before.index_of(other);
                assert(after[if k < at {
                    k
                } else {
                    k + 1
                }] == other);
            }
            if other == name@ {
                assert(after[at as int] == other);
            }
            if after.contains(other) {
                let k = after.index_of(other);
                if k < at {
                    assert(before[k] == other);
                } else if k > at {
                    assert(before[k - 1] == other);
                }
            }
        }
    }
}

impl Album {
    #[verifier::type_invariant]
    spec fn inv(&self) -> bool {
        self@.wf()
    }

    /// Lists the files of a directory, given their raw names in any order.
    ///
    /// Every name must be safe: the first that is not ends the listing and
    /// comes back in the error. `README.txt`, in exactly this spelling, is
    /// the readme; names with the extension `jpg`, in any case of letters,
    /// are the pictures; all others go below. Both lists come out in the
    /// order of [`name_lt`], each name once.
    pub fn new(raw: &Vec<Vec<u8>>) -> (r: Result<Album, DubiousFilename>)
        ensures
            match r {
                Ok(album) => {
                    &&& forall|i: int| 0 <= i < raw.len() ==> all_safe_bytes(#[trigger] raw@[i]@)
                    &&& album@.wf()
                    &&& album@.lists(raw_texts(raw@))
                },
                Err(e) => exists|i: int|
                    {
                        &&& 0 <= i < raw.len()
                        &&& !all_safe_bytes(#[trigger] raw@[i]@)
                        &&& e.0@ == raw@[i]@
                        &&& forall|j: int| 0 <= j < i ==> all_safe_bytes(#[trigger] raw@[j]@)
                    },
            },
    {
        let mut readme: Option<String> = None;
        let mut jpegs: Vec<String> = Vec::new();
        let mut others: Vec<String> = Vec::new();
        let ghost names = raw_texts(raw@);
        let mut i: usize = 0;
        while i < raw.len()
            invariant
                i <= raw.len(),
                names == raw_texts(raw@),
                forall|j: int| 0 <= j < i ==> all_safe_bytes(#[trigger] raw@[j]@),
                readme matches Some(name) ==> name@ == readme_name(),
                readme is Some <==> names.take(i as int).contains(readme_name()),
                strictly_sorted(texts(jpegs@)),
                strictly_sorted(texts(others@)),
                forall|k: int|
                    0 <= k < jpegs.len() ==> is_safe_name(#[trigger] jpegs@[k]@) && is_jpeg(
                        jpegs@[k]@,
                    ),
                forall|k: int|
                    0 <= k < others.len() ==> is_safe_name(#[trigger] others@[k]@) && is_other(
                        others@[k]@,
                    ),
                forall|name: Seq<char>| #[trigger]
                    texts(jpegs@).contains(name) <==> names.take(i as int).contains(name)
                        && is_jpeg(name),
                forall|name: Seq<char>| #[trigger]
                    texts(others@).contains(name) <==> names.take(i as int).contains(name)
                        && is_other(name),
            decreases raw.len() - i,
        {
            let name = match validate_name(raw[i].as_slice()) {
                Ok(name) => name,
                Err(e) => {
                    return Err(e);
                },
            };
            let ghost seen = names.take(i as int);
            let ghost now = names.take(i + 1);
            assert(now =~= seen.push(name@));
            assert forall|other: Seq<char>| #[trigger]
                now.contains(other) <==> seen.contains(other) || other == name@ by {
                if seen.contains(other) {
                    assert(now[seen.index_of(other)] == other);
                }
                if other == name@ {
                    assert(now[i as int] == other);
                }
            }
            if str_eq(name, "README.txt") {
                readme = Some(name.to_owned());
                proof {
                    lemma_readme_is_no_jpeg();
                }
            } else if remove_extension(name, "jpg").is_some() {
                insert_sorted(&mut jpegs, name);
                assert forall|k: int| 0 <= k < jpegs.len() implies is_jpeg(
                    #[trigger] jpegs@[k]@,
                ) by {
                    let text = texts(jpegs@)[k];
                    assert(texts(jpegs@).contains(text));
                }
            } else {
                insert_sorted(&mut others, name);
                assert forall|k: int| 0 <= k < others.len() implies is_other(
                    #[trigger] others@[k]@,
                ) by {
                    let text = texts(others@)[k];
                    assert(texts(others@).contains(text));
                }
            }
            i = i + 1;
        }
        assert(names.take(raw.len() as int) =~= names);
        let album = Album { readme, jpegs, others };
        Ok(album)
    }

    /// The name of the readme, where the album has one.
    pub fn readme(&self) -> (name: Option<&str>)
        ensures
            self@.wf(),
            name is Some <==> self@.readme is Some,
            name matches Some(text) ==> Some(text@) == self@.readme,
    {
        proof {
            use_type_invariant(self);
        }
        match &self.readme {
            Some(name) => Some(name.as_str()),
            None => None,
        }
    }

    /// The pictures of the album, in the order in which they are shown.
    pub fn jpegs(&self) -> (names: &Vec<String>)
        ensures
            self@.wf(),
            texts(names@) == self@.jpegs,
    {
        proof {
            use_type_invariant(self);
        }
        &self.jpegs
    }

    /// The other files of the album, in the order in which they are shown.
    pub fn others(&self) -> (names: &Vec<String>)
        ensures
            self@.wf(),
            texts(names@) == self@.others,
    {
        proof {
            use_type_invariant(self);
        }
        &self.others
    }

    /// The pictures shown before and after the picture `name`, taking the
    /// pictures as a ring: before the first comes the last, and the only
    /// picture of an album is its own neighbour on both sides. `NotFound`
    /// where the album has no such picture.
    pub fn previous_next(&self, name: &str) -> (r: Result<(&str, &str), HttpError>)
        ensures
            self@.wf(),
            r is Ok <==> self@.jpegs.contains(name@),
            r matches Ok((previous, next)) ==> {
                let at = self@.jpegs.index_of(name@);
                &&& previous@ == self@.previous(at)
                &&& next@ == self@.next(at)
            },
            r matches Err(e) ==> e == HttpError::NotFound,
    {
        proof {
            use_type_invariant(self);
        }
        let ghost names = texts(self.jpegs@);
        assert forall|i: int| 0 <= i < self.jpegs.len() implies is_safe_name(
            #[trigger] self.jpegs@[i]@,
        ) by {
            assert(is_safe_name(names[i]));
        }
        if !name.is_ascii() {
            proof {
                if names.contains(name@) {
                    let k = names.index_of(name@);
                    lemma_safe_is_ascii(names[k]);
                }
            }
            return Err(HttpError::NotFound);
        }
        let at = position(&self.jpegs, name);
        if at >= self.jpegs.len() {
            proof {
                if names.contains(name@) {
                    let k = names.index_of(name@);
                    lemma_name_lt_irreflexive(name@);
                }
            }
            return Err(HttpError::NotFound);
        }
        let here = self.jpegs[at].as_str();
        proof {
            lemma_safe_is_ascii(here@);
            assert(names[at as int] == here@);
        }
        if name_before(name, here) {
            proof {
                if names.contains(name@) {
                    let k = names.index_of(name@);
                    lemma_name_lt_irreflexive(name@);
                    if k > at {
                        lemma_name_lt_transitive(name@, here@, names[k]);
                    }
                }
            }
            return Err(HttpError::NotFound);
        }
        proof {
            lemma_name_lt_total(name@, here@);
            assert(names.contains(name@));
            let k = names.index_of(name@);
            lemma_name_lt_irreflexive(name@);
            if k < at {
                assert(name_lt(names[k], names[at as int]));
            } else if k > at {
                assert(name_lt(names[at as int], names[k]));
            }
            assert(k == at);
        }
        let before: usize = if at == 0 {
            self.jpegs.len() - 1
        } else {
            at - 1
        };
        let after: usize = if at + 1 == self.jpegs.len() {
            0
        } else {
            at + 1
        };
        Ok((self.jpegs[before].as_str(), self.jpegs[after].as_str()))
    }
}

/// The readme is no picture.
pub proof fn lemma_readme_is_no_jpeg()
    ensures
        !is_jpeg(readme_name()),
{
    reveal_strlit("README.txt");
    reveal_strlit("jpg");
    let name = readme_name();
    let tail = suffix(name, "jpg"@);
    assert(tail[0] == 't');
}

/// In a sorted list, a name that is not the first is found behind the first.
proof fn lemma_rest_of_sorted(names: Seq<Seq<char>>)
    requires
        strictly_sorted(names),
        names.len() > 0,
    ensures
        strictly_sorted(names.skip(1)),
        forall|name: Seq<char>| #[trigger]
            names.skip(1).contains(name) <==> names.contains(name) && name != names[0],
{
    let rest = names.skip(1);
    assert forall|i: int, j: int| 0 <= i < j < rest.len() implies name_lt(
        #[trigger] rest[i],
        #[trigger] rest[j],
    ) by {
        assert(name_lt(names[i + 1], names[j + 1]));
    }
    assert forall|name: Seq<char>| #[trigger]
        rest.contains(name) <==> names.contains(name) && name != names[0] by {
        if rest.contains(name) {
            let k = rest.index_of(name);
            assert(names[k + 1] == name);
            assert(name_lt(names[0], names[k + 1]));
            lemma_name_lt_irreflexive(name);
        }
        if names.contains(name) && name != names[0] {
            let k = names.index_of(name);
            assert(rest[k - 1] == name);
        }
    }
}

/// Two sorted lists of the same names are the same list.
pub proof fn lemma_sorted_lists_agree(a: Seq<Seq<char>>, b: Seq<Seq<char>>)
    requires
        strictly_sorted(a),
        strictly_sorted(b),
        forall|name: Seq<char>| a.contains(name) <==> b.contains(name),
    ensures
        a == b,
    decreases a.len(),
{
    if a.len() == 0 {
        if b.len() > 0 {
            assert(b.contains(b[0]));
        }
        assert(a =~= b);
    } else {
        assert(a.contains(a[0]));
        assert(b.contains(a[0]));
        assert(b.contains(b[0]));
        let i = a.index_of(b[0]);
        let j = b.index_of(a[0]);
        if i > 0 && j > 0 {
            assert(name_lt(a[0], a[i]));
            assert(name_lt(b[0], b[j]));
            lemma_name_lt_transitive(a[0], b[0], a[0]);
            lemma_name_lt_irreflexive(a[0]);
        }
        assert(a[0] == b[0]);
        lemma_rest_of_sorted(a);
        lemma_rest_of_sorted(b);
        lemma_sorted_lists_agree(a.skip(1), b.skip(1));
        assert(a =~= seq![a[0]] + a.skip(1));
        assert(b =~= seq![b[0]] + b.skip(1));
    }
}

/// The listing of a directory does not depend on the order in which its
/// names are read: two albums that list the same names are equal, list by
/// list and place by place.
pub proof fn lemma_listing_is_reproducible(
    first: AlbumView,
    second: AlbumView,
    names: Seq<Seq<char>>,
    names_again: Seq<Seq<char>>,
)
    requires
        first.wf(),
        second.wf(),
        first.lists(names),
        second.lists(names_again),
        forall|name: Seq<char>| names.contains(name) <==> names_again.contains(name),
    ensures
        first == second,
{
    assert forall|name: Seq<char>| first.jpegs.contains(name) <==> second.jpegs.contains(
        name,
    ) by {
        assert(first.jpegs.contains(name) <==> names.contains(name) && is_jpeg(name));
        assert(second.jpegs.contains(name) <==> names_again.contains(name) && is_jpeg(name));
    }
    assert forall|name: Seq<char>| first.others.contains(name) <==> second.others.contains(
        name,
    ) by {
        assert(first.others.contains(name) <==> names.contains(name) && is_other(name));
        assert(second.others.contains(name) <==> names_again.contains(name) && is_other(name));
    }
    lemma_sorted_lists_agree(first.jpegs, second.jpegs);
    lemma_sorted_lists_agree(first.others, second.others);
}

/// The only picture of an album is its own neighbour on both sides.
pub proof fn lemma_neighbours_of_the_only_picture(album: AlbumView)
    requires
        album.jpegs.len() == 1,
    ensures
        album.previous(0) == album.jpegs[0],
        album.next(0) == album.jpegs[0],
{
}

/// In an album of three pictures the neighbours of the one in the middle
/// are the first and the last, those of the first are the last and the one
/// in the middle, and those of the last are the one in the middle and the
/// first.
pub proof fn lemma_neighbours_of_three(album: AlbumView)
    requires
        album.jpegs.len() == 3,
    ensures
        album.previous(1) == album.jpegs[0] && album.next(1) == album.jpegs[2],
        album.previous(0) == album.jpegs[2] && album.next(0) == album.jpegs[1],
        album.previous(2) == album.jpegs[1] && album.next(2) == album.jpegs[0],
{
}

/// Going to the next picture and then to the previous one leads back, and
/// so the other way round.
pub proof fn lemma_previous_undoes_next(album: AlbumView, at: int)
    requires
        0 <= at < album.jpegs.len(),
    ensures
        album.previous(if at + 1 == album.jpegs.len() { 0 } else { at + 1 }) == album.jpegs[at],
        album.next(if at == 0 { album.jpegs.len() - 1 } else { at - 1 }) == album.jpegs[at],
{
}

} // verus!
