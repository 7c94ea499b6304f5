//! Selection and ordering of the image files found under a directory.

use vstd::prelude::*;
use crate::text::{chars_of, chars_equal, string_from_chars};

verus! {

broadcast use vstd::seq_lib::group_to_multiset_ensures;

/// One entry met while walking a directory: its path and whether it is a regular file.
#[derive(Clone, Debug)]
pub struct WalkEntry {
    pub path: String,
    pub is_file: bool,
}

/// Why no image list could be produced.
#[derive(Clone, Copy, Debug, PartialEq, Eq, Structural)]
pub enum ImagesError {
    /// No regular file with a supported extension was found.
    NoImages,
}

/// Index of the last occurrence of `c` in `s`.
pub open spec fn last_index_of(s: Seq<char>, c: char) -> Option<int>
    decreases s.len(),
{
    if s.len() == 0 {
        None
    } else if s.last() == c {
        Some(s.len() - 1)
    } else {
        last_index_of(s.drop_last(), c)
    }
}

/// The final component of a path: everything after its last `/`.
pub open spec fn file_name(path: Seq<char>) -> Seq<char> {
    match last_index_of(path, '/') {
        Some(i) => path.skip(i + 1),
        None => path,
    }
}

/// The extension of a file name as `Path::extension` finds it: the text after
/// the last `.`, provided that dot is not the name's first character; `..` has none.
pub open spec fn extension(name: Seq<char>) -> Option<Seq<char>> {
    if name == seq!['.', '.'] {
        None
    } else {
        match last_index_of(name, '.') {
            Some(i) => if i == 0 { None } else { Some(name.skip(i + 1)) },
            None => None,
        }
    }
}

/// ASCII lower-casing of one character.
pub open spec fn ascii_lower(c: char) -> char {
    if 'A' <= c && c <= 'Z' { ((c as int) + 32) as char } else { c }
}

/// ASCII lower-casing of a text.
pub open spec fn ascii_lowercase(s: Seq<char>) -> Seq<char> {
    s.map_values(|c: char| ascii_lower(c))
}

/// The image extensions that are read: JPEG, PNG, WebP, BMP and TIFF, in any ASCII case.
pub open spec fn is_image_extension(ext: Seq<char>) -> bool {
    let e = ascii_lowercase(ext);
    e == "jpg"@ || e == "jpeg"@ || e == "png"@ || e == "webp"@ || e == "bmp"@ || e == "tif"@
        || e == "tiff"@
}

/// A path whose file name carries a supported image extension.
pub open spec fn is_image_path(path: Seq<char>) -> bool {
    match extension(file_name(path)) {
        Some(e) => is_image_extension(e),
        None => false,
    }
}

/// Path order: lexicographic by character, except that the separator `/` sorts
/// before every other character; for paths without empty components this is the
/// component-by-component order of `Path`.
pub open spec fn path_le(a: Seq<char>, b: Seq<char>) -> bool
    decreases a.len(),
{
    if a.len() == 0 {
        true
    } else if b.len() == 0 {
        false
    } else if a[0] == b[0] {
        path_le(a.drop_first(), b.drop_first())
    } else if a[0] == '/' {
        true
    } else if b[0] == '/' {
        false
    } else {
        a[0] < b[0]
    }
}

/// Texts in path order.
pub open spec fn is_path_sorted(s: Seq<Seq<char>>) -> bool {
    forall|i: int, j: int| 0 <= i < j < s.len() ==> path_le(#[trigger] s[i], #[trigger] s[j])
}

/// Any two paths are comparable.
pub proof fn lemma_path_le_total(a: Seq<char>, b: Seq<char>)
    ensures
        path_le(a, b) || path_le(b, a),
    decreases a.len(),
{
    if a.len() > 0 && b.len() > 0 && a[0] == b[0] {
        lemma_path_le_total(a.drop_first(), b.drop_first());
    }
}

/// Path order is transitive.
pub proof fn lemma_path_le_transitive(a: Seq<char>, b: Seq<char>, c: Seq<char>)
    requires
        path_le(a, b),
        path_le(b, c),
    ensures
        path_le(a, c),
    decreases a.len(),
{
    if a.len() > 0 && b.len() > 0 && c.len() > 0 && a[0] == b[0] && b[0] == c[0] {
        lemma_path_le_transitive(a.drop_first(), b.drop_first(), c.drop_first());
    }
}

/// Path order is antisymmetric: two paths each before the other are equal.
pub proof fn lemma_path_le_antisymmetric(a: Seq<char>, b: Seq<char>)
    requires
        path_le(a, b),
        path_le(b, a),
    ensures
        a == b,
    decreases a.len(),
{
    if a.len() > 0 && b.len() > 0 {
        assert(a[0] == b[0]);
        lemma_path_le_antisymmetric(a.drop_first(), b.drop_first());
        assert(a =~= seq![a[0]] + a.drop_first());
        assert(b =~= seq![b[0]] + b.drop_first());
    }
}

/// Executable path order.
pub fn path_le_exec(a: &Vec<char>, b: &Vec<char>) -> (r: bool)
    ensures
        r == path_le(a@, b@),
{
    let mut i: usize = 0;
    assert(a@.skip(0) =~= a@);
    assert(b@.skip(0) =~= b@);
    while i < a.len() && i < b.len()
        invariant
            i <= a.len(),
            i <= b.len(),
            path_le(a@, b@) == path_le(a@.skip(i as int), b@.skip(i as int)),
        decreases a.len() - i,
    {
        let ca = a[i];
        let cb = b[i];
        assert(a@.skip(i as int)[0] == a@[i as int]);
        assert(b@.skip(i as int)[0] == b@[i as int]);
        if ca != cb {
            if ca == '/' {
                return true;
            }
            if cb == '/' {
                return false;
            }
            return ca < cb;
        }
        assert(a@.skip(i as int).drop_first() =~= a@.skip(i + 1));
        assert(b@.skip(i as int).drop_first() =~= b@.skip(i + 1));
        i = i + 1;
    }
    i == a.len()
}

fn last_index(s: &Vec<char>, c: char) -> (r: Option<usize>)
    ensures
        match r {
            Some(i) => i < s.len() && last_index_of(s@, c) == Some(i as int),
            None => last_index_of(s@, c) is None,
        },
{
    let mut found: Option<usize> = None;
    let mut i: usize = 0;
    while i < s.len()
        invariant
            i <= s.len(),
            match found {
                Some(f) => f < i && last_index_of(s@.take(i as int), c) == Some(f as int),
                None => last_index_of(s@.take(i as int), c) is None,
            },
        decreases s.len() - i,
    {
        assert(s@.take(i + 1).drop_last() =~= s@.take(i as int));
        if s[i] == c {
            found = Some(i);
        }
        i = i + 1;
    }
    assert(s@.take(s.len() as int) =~= s@);
    found
}

fn lower(c: char) -> (r: char)
    ensures
        r == ascii_lower(c),
{
    if 'A' <= c && c <= 'Z' {
        let b: u8 = c as u8;
        let l: u8 = b + 32;
        l as char
    } else {
        c
    }
}

fn matches_lowercase(ext: &Vec<char>, lit: &str) -> (r: bool)
    ensures
        r == (ascii_lowercase(ext@) == lit@),
{
    let mut low: Vec<char> = Vec::new();
    let mut i: usize = 0;
    while i < ext.len()
        invariant
            i <= ext.len(),
            low@ == ascii_lowercase(ext@.take(i as int)),
        decreases ext.len() - i,
    {
        low.push(lower(ext[i]));
        assert(ascii_lowercase(ext@.take(i + 1)) =~= ascii_lowercase(ext@.take(i as int)).push(
            ascii_lower(ext@[i as int]),
        ));
        i = i + 1;
    }
    assert(ext@.take(ext.len() as int) =~= ext@);
    let l = chars_of(lit);
    chars_equal(&low, &l)
}

/// The extension of the file a path names, as characters.
pub fn path_extension(path: &str) -> (r: Option<Vec<char>>)
    ensures
        match r {
            Some(e) => extension(file_name(path@)) == Some(e@),
            None => extension(file_name(path@)) is None,
        },
{
    let p = chars_of(path);
    let start: usize = match last_index(&p, '/') {
        Some(i) => i + 1,
        None => 0,
    };
    let mut name: Vec<char> = Vec::new();
    let mut i: usize = start;
    while i < p.len()
        invariant
            start <= i <= p.len(),
            name@ == p@.subrange(start as int, i as int),
        decreases p.len() - i,
    {
        name.push(p[i]);
        assert(p@.subrange(start as int, i + 1) =~= p@.subrange(start as int, i as int).push(p@[i as int]));
        i = i + 1;
    }
    assert(name@ =~= file_name(path@));
    if name.len() == 2 && name[0] == '.' && name[1] == '.' {
        assert(name@ =~= seq!['.', '.']);
        return None;
    }
    assert(name@ != seq!['.', '.']);
    match last_index(&name, '.') {
        None => None,
        Some(d) => {
            if d == 0 {
                return None;
            }
            let mut ext: Vec<char> = Vec::new();
            let mut j: usize = d + 1;
            while j < name.len()
                invariant
                    d < name.len(),
                    d + 1 <= j <= name.len(),
                    ext@ == name@.subrange(d + 1, j as int),
                decreases name.len() - j,
            {
                ext.push(name[j]);
                assert(name@.subrange(d + 1, j + 1) =~= name@.subrange(d + 1, j as int).push(name@[j as int]));
                j = j + 1;
            }
            assert(ext@ =~= name@.skip(d + 1));
            Some(ext)
        },
    }
}

/// An extension is a proper suffix of the path, after a dot and a non-empty stem.
pub proof fn lemma_extension_len(path: Seq<char>, e: Seq<char>)
    requires
        extension(file_name(path)) == Some(e),
    ensures
        path.len() >= e.len() + 2,
{
    let name = file_name(path);
    lemma_last_index_bound(name, '.');
    lemma_last_index_bound(path, '/');
}

proof fn lemma_last_index_bound(s: Seq<char>, c: char)
    ensures
        last_index_of(s, c) matches Some(i) ==> 0 <= i < s.len(),
    decreases s.len(),
{
    if s.len() > 0 && s.last() != c {
        lemma_last_index_bound(s.drop_last(), c);
    }
}

/// Whether the path's extension is exactly `ext` (case-sensitive).
pub fn has_extension(path: &str, ext: &str) -> (r: bool)
    ensures
        r == (extension(file_name(path@)) == Some(ext@)),
{
    match path_extension(path) {
        None => false,
        Some(e) => {
            let x = chars_of(ext);
            chars_equal(&e, &x)
        },
    }
}

/// Whether the path names a file with a supported image extension.
pub fn is_image_file(path: &str) -> (r: bool)
    ensures
        r == is_image_path(path@),
{
    match path_extension(path) {
        None => false,
        Some(ext) => matches_lowercase(&ext, "jpg") || matches_lowercase(&ext, "jpeg")
            || matches_lowercase(&ext, "png") || matches_lowercase(&ext, "webp")
            || matches_lowercase(&ext, "bmp") || matches_lowercase(&ext, "tif")
            || matches_lowercase(&ext, "tiff"),
    }
}

/// The paths, in walk order, of the entries that are regular files with a supported extension.
pub open spec fn image_paths(entries: Seq<WalkEntry>) -> Seq<Seq<char>>
    decreases entries.len(),
{
    if entries.len() == 0 {
        seq![]
    } else {
        let prev = image_paths(entries.drop_last());
        let e = entries.last();
        if e.is_file && is_image_path(e.path@) {
            prev.push(e.path@)
        } else {
            prev
        }
    }
}

/// The texts of a list of strings.
pub open spec fn texts(v: Seq<String>) -> Seq<Seq<char>> {
    v.map_values(|s: String| s@)
}

/// Inserts `x` into the path-sorted `sorted`, after every element not above it.
fn insert_sorted(
    sorted: &mut Vec<Vec<char>>,
    sview: Ghost<Seq<Seq<char>>>,
    x: Vec<char>,
) -> (new_view: Ghost<Seq<Seq<char>>>)
    requires
        old(sorted).len() == sview@.len(),
        forall|q: int| 0 <= q < sview@.len() ==> #[trigger] old(sorted)@[q]@ == sview@[q],
        is_path_sorted(sview@),
    ensures
        final(sorted).len() == new_view@.len(),
        forall|q: int| 0 <= q < new_view@.len() ==> #[trigger] final(sorted)@[q]@ == new_view@[q],
        is_path_sorted(new_view@),
        new_view@.len() == sview@.len() + 1,
        new_view@.to_multiset() == sview@.to_multiset().insert(x@),
{
    let ghost xv = x@;
    let mut p: usize = 0;
    while p < sorted.len() && path_le_exec(&sorted[p], &x)
        invariant
            p <= sorted.len(),
            sorted.len() == sview@.len(),
            forall|q: int| 0 <= q < sview@.len() ==> #[trigger] sorted@[q]@ == sview@[q],
            forall|q: int| 0 <= q < p ==> path_le(#[trigger] sview@[q], xv),
            x@ == xv,
        decreases sorted.len() - p,
    {
        p = p + 1;
    }
    let ghost nv = sview@.insert(p as int, xv);
    proof {
        if p < sview@.len() {
            lemma_path_le_total(sview@[p as int], xv);
        }
    }
    sorted.insert(p, x);
    assert forall|i: int, j: int| 0 <= i < j < nv.len() implies path_le(
        #[trigger] nv[i],
        #[trigger] nv[j],
    ) by {
        if j < p {
        } else if i < p && j == p {
        } else if i < p && j > p {
            assert(path_le(sview@[i], sview@[j - 1]));
        } else if i == p {
            assert(nv[j] == sview@[j - 1]);
            if j - 1 > p {
                assert(path_le(sview@[p as int], sview@[j - 1]));
                lemma_path_le_transitive(xv, sview@[p as int], sview@[j - 1]);
            }
        } else {
            assert(path_le(sview@[i - 1], sview@[j - 1]));
        }
    }
    assert forall|q: int| 0 <= q < nv.len() implies #[trigger] sorted@[q]@ == nv[q] by {
        if q < p {
        } else if q == p {
        } else {
            assert(sorted@[q] == old(sorted)@[q - 1]);
        }
    }
    Ghost(nv)
}

/// The image files among the walked entries, in path order: exactly the regular
/// files with a supported extension (as a multiset), or `NoImages` when there is none.
pub fn collect_images(entries: &Vec<WalkEntry>) -> (r: Result<Vec<String>, ImagesError>)
    ensures
        match r {
            Ok(v) => image_paths(entries@).len() > 0 && is_path_sorted(texts(v@))
                && texts(v@).to_multiset() == image_paths(entries@).to_multiset(),
            Err(e) => image_paths(entries@).len() == 0 && e == ImagesError::NoImages,
        },
{
    let mut sorted: Vec<Vec<char>> = Vec::new();
    let ghost mut sview: Seq<Seq<char>> = seq![];
    let mut i: usize = 0;
    while i < entries.len()
        invariant
            i <= entries.len(),
            sorted.len() == sview.len(),
            forall|q: int| 0 <= q < sview.len() ==> #[trigger] sorted@[q]@ == sview[q],
            is_path_sorted(sview),
            sview.to_multiset() == image_paths(entries@.take(i as int)).to_multiset(),
            sview.len() == image_paths(entries@.take(i as int)).len(),
        decreases entries.len() - i,
    {
        assert(entries@.take(i + 1).drop_last() =~= entries@.take(i as int));
        let e = &entries[i];
        if e.is_file && is_image_file(e.path.as_str()) {
            let x = chars_of(e.path.as_str());
            let Ghost(nv) = insert_sorted(&mut sorted, Ghost(sview), x);
            proof {
                sview = nv;
            }
        }
        i = i + 1;
    }
    assert(entries@.take(entries.len() as int) =~= entries@);
    if sorted.len() == 0 {
        return Err(ImagesError::NoImages);
    }
    let mut out: Vec<String> = Vec::new();
    let mut k: usize = 0;
    while k < sorted.len()
        invariant
            k <= sorted.len(),
            sorted.len() == sview.len(),
            forall|q: int| 0 <= q < sview.len() ==> #[trigger] sorted@[q]@ == sview[q],
            texts(out@) == sview.take(k as int),
        decreases sorted.len() - k,
    {
        let s = string_from_chars(&sorted[k]);
        let ghost prev = out@;
        out.push(s);
        assert(texts(out@) =~= texts(prev).push(sview[k as int]));
        assert(sview.take(k + 1) =~= sview.take(k as int).push(sview[k as int]));
        k = k + 1;
    }
    assert(sview.take(sorted.len() as int) =~= sview);
    Ok(out)
}


/// Two path-sorted lists holding the same paths (as multisets) are equal.
pub proof fn lemma_sorted_unique(a: Seq<Seq<char>>, b: Seq<Seq<char>>)
    requires
        is_path_sorted(a),
        is_path_sorted(b),
        a.to_multiset() == b.to_multiset(),
    ensures
        a == b,
    decreases a.len(),
{
    vstd::seq_lib::to_multiset_len(a);
    vstd::seq_lib::to_multiset_len(b);
    if a.len() > 0 {
        let x = a[0];
        let y = b[0];
        vstd::seq_lib::to_multiset_contains(a, x);
        vstd::seq_lib::to_multiset_contains(b, x);
        vstd::seq_lib::to_multiset_contains(a, y);
        vstd::seq_lib::to_multiset_contains(b, y);
        assert(a.contains(x));
        assert(b.contains(y));
        let j = choose|j: int| 0 <= j < b.len() && b[j] == x;
        let i = choose|i: int| 0 <= i < a.len() && a[i] == y;
        if j > 0 {
            assert(path_le(b[0], b[j]));
        } else {
            lemma_path_le_total(y, x);
            assert(path_le(y, x)) by {
                lemma_path_le_reflexive(x);
            }
        }
        if i > 0 {
            assert(path_le(a[0], a[i]));
        } else {
            lemma_path_le_reflexive(x);
        }
        lemma_path_le_antisymmetric(x, y);
        vstd::seq_lib::to_multiset_remove(a, 0);
        vstd::seq_lib::to_multiset_remove(b, 0);
        assert(a.remove(0) =~= a.drop_first());
        assert(b.remove(0) =~= b.drop_first());
        assert forall|p: int, q: int| 0 <= p < q < a.drop_first().len() implies path_le(
            #[trigger] a.drop_first()[p],
            #[trigger] a.drop_first()[q],
        ) by {
            assert(path_le(a[p + 1], a[q + 1]));
        }
        assert forall|p: int, q: int| 0 <= p < q < b.drop_first().len() implies path_le(
            #[trigger] b.drop_first()[p],
            #[trigger] b.drop_first()[q],
        ) by {
            assert(path_le(b[p + 1], b[q + 1]));
        }
        lemma_sorted_unique(a.drop_first(), b.drop_first());
        assert(a =~= seq![x] + a.drop_first());
        assert(b =~= seq![y] + b.drop_first());
    }
}

/// Every path is in order with itself.
pub proof fn lemma_path_le_reflexive(a: Seq<char>)
    ensures
        path_le(a, a),
    decreases a.len(),
{
    if a.len() > 0 {
        lemma_path_le_reflexive(a.drop_first());
    }
}

/// The image list does not depend on the order in which the directory was
/// walked: two walks that meet the same image files give the same list.
pub proof fn lemma_listing_independent_of_walk_order(
    e1: Seq<WalkEntry>,
    e2: Seq<WalkEntry>,
    v1: Seq<String>,
    v2: Seq<String>,
)
    requires
        image_paths(e1).to_multiset() == image_paths(e2).to_multiset(),
        is_path_sorted(texts(v1)),
        texts(v1).to_multiset() == image_paths(e1).to_multiset(),
        is_path_sorted(texts(v2)),
        texts(v2).to_multiset() == image_paths(e2).to_multiset(),
    ensures
        texts(v1) == texts(v2),
{
    lemma_sorted_unique(texts(v1), texts(v2));
}

} // verus!
