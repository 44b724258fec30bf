//! The file-system API's own logic: directory listings ordered directories
//! first and then by name, the size limit on reads, and the decisions of the
//! create and stat endpoints.
use vstd::prelude::*;
use vstd::seq_lib::*;
use crate::text::{chars_of, concat2, owned, str_eq};

verus! {

broadcast use group_to_multiset_ensures;

/// One entry of a directory listing.
pub struct FsEntry {
    pub name: String,
    pub path: String,
    pub is_directory: bool,
    pub is_file: bool,
    pub is_symlink: bool,
}

/// `a` comes strictly before `b` in the order of code points, compared
/// lexicographically (the order of `str::cmp`).
pub open spec fn name_lt(a: Seq<char>, b: Seq<char>) -> bool
    decreases a.len(),
{
    if a.len() == 0 {
        b.len() > 0
    } else if b.len() == 0 {
        false
    } else if a[0] != b[0] {
        a[0] < b[0]
    } else {
        name_lt(a.drop_first(), b.drop_first())
    }
}

/// `a` is listed strictly before `b`: directories first, then by name.
pub open spec fn entry_before(a: FsEntry, b: FsEntry) -> bool {
    ||| (a.is_directory && !b.is_directory)
    ||| (a.is_directory == b.is_directory && name_lt(a.name@, b.name@))
}

/// Where a stable insertion puts `e` into the listing `s`: after every entry
/// that `e` does not come strictly before.
pub open spec fn insertion_point(s: Seq<FsEntry>, e: FsEntry) -> nat
    decreases s.len(),
{
    if s.len() > 0 && entry_before(e, s.last()) {
        insertion_point(s.drop_last(), e)
    } else {
        s.len()
    }
}

/// The listing `s` ordered as `slice::sort_by` orders it with the listing's
/// comparison (a stable sort).
pub open spec fn sorted_listing(s: Seq<FsEntry>) -> Seq<FsEntry>
    decreases s.len(),
{
    if s.len() == 0 {
        s
    } else {
        let r = sorted_listing(s.drop_last());
        r.insert(insertion_point(r, s.last()) as int, s.last())
    }
}

/// No entry of `s` comes strictly before an entry listed ahead of it.
pub open spec fn listing_is_ordered(s: Seq<FsEntry>) -> bool {
    forall|i: int, j: int| 0 <= i < j < s.len() ==> !entry_before(#[trigger] s[j], #[trigger] s[i])
}

proof fn lemma_name_lt_asym(a: Seq<char>, b: Seq<char>)
    ensures
        name_lt(a, b) ==> !name_lt(b, a),
    decreases a.len(),
{
    if a.len() > 0 && b.len() > 0 && a[0] == b[0] {
        lemma_name_lt_asym(a.drop_first(), b.drop_first());
    }
}

proof fn lemma_name_lt_trans(a: Seq<char>, b: Seq<char>, c: Seq<char>)
    requires
        name_lt(a, b),
        name_lt(b, c),
    ensures
        name_lt(a, c),
    decreases a.len(),
{
    if a.len() > 0 && b.len() > 0 && c.len() > 0 && a[0] == b[0] && b[0] == c[0] {
        lemma_name_lt_trans(a.drop_first(), b.drop_first(), c.drop_first());
    }
}

proof fn lemma_name_lt_total(a: Seq<char>, b: Seq<char>)
    ensures
        a != b ==> name_lt(a, b) || name_lt(b, a),
    decreases a.len(),
{
    if a.len() > 0 && b.len() > 0 && a[0] == b[0] {
        lemma_name_lt_total(a.drop_first(), b.drop_first());
        if a.drop_first() == b.drop_first() {
            assert(a =~= seq![a[0]] + a.drop_first());
            assert(b =~= seq![b[0]] + b.drop_first());
        }
    } else if a.len() == 0 && b.len() == 0 {
        assert(a =~= b);
    }
}

proof fn lemma_before_asym(a: FsEntry, b: FsEntry)
    ensures
        entry_before(a, b) ==> !entry_before(b, a),
{
    lemma_name_lt_asym(a.name@, b.name@);
}

/// Not-before is transitive: `c` not before `b` and `b` not before `a`
/// give `c` not before `a`.
proof fn lemma_not_before_trans(a: FsEntry, b: FsEntry, c: FsEntry)
    requires
        !entry_before(c, b),
        !entry_before(b, a),
    ensures
        !entry_before(c, a),
{
    lemma_name_lt_total(a.name@, b.name@);
    lemma_name_lt_total(b.name@, c.name@);
    if entry_before(c, a) {
        if c.is_directory == b.is_directory && b.is_directory == a.is_directory {
            if a.name@ == b.name@ {
            } else if b.name@ == c.name@ {
            } else {
                if name_lt(b.name@, c.name@) && name_lt(a.name@, b.name@) {
                    lemma_name_lt_trans(a.name@, b.name@, c.name@);
                    lemma_name_lt_asym(c.name@, a.name@);
                }
            }
        }
    }
}

proof fn lemma_insertion_point(s: Seq<FsEntry>, e: FsEntry)
    ensures
        insertion_point(s, e) <= s.len(),
        forall|j: int| insertion_point(s, e) <= j < s.len() ==> entry_before(e, #[trigger] s[j]),
        insertion_point(s, e) > 0 ==> !entry_before(e, s[insertion_point(s, e) - 1]),
    decreases s.len(),
{
    if s.len() > 0 && entry_before(e, s.last()) {
        lemma_insertion_point(s.drop_last(), e);
        assert forall|j: int| insertion_point(s, e) <= j < s.len() implies entry_before(
            e,
            #[trigger] s[j],
        ) by {
            if j < s.len() - 1 {
                assert(s[j] == s.drop_last()[j]);
            }
        }
    }
}

proof fn lemma_insert_keeps_order(s: Seq<FsEntry>, e: FsEntry)
    requires
        listing_is_ordered(s),
    ensures
        listing_is_ordered(s.insert(insertion_point(s, e) as int, e)),
{
    lemma_insertion_point(s, e);
    let p = insertion_point(s, e) as int;
    let r = s.insert(p, e);
    assert forall|i: int, j: int| 0 <= i < j < r.len() implies !entry_before(
        #[trigger] r[j],
        #[trigger] r[i],
    ) by {
        if j < p {
            assert(r[i] == s[i] && r[j] == s[j]);
        } else if j == p {
            assert(r[j] == e);
            assert(r[i] == s[i]);
            if i < p - 1 {
                assert(!entry_before(s[p - 1], s[i]));
                lemma_not_before_trans(s[i], s[p - 1], e);
            }
        } else if i < p {
            assert(r[i] == s[i] && r[j] == s[j - 1]);
        } else if i == p {
            assert(r[i] == e && r[j] == s[j - 1]);
            lemma_before_asym(e, s[j - 1]);
        } else {
            assert(r[i] == s[i - 1] && r[j] == s[j - 1]);
        }
    }
}

/// The listing comes out ordered: directories first, then by name.
pub proof fn lemma_sorted_listing_is_ordered(s: Seq<FsEntry>)
    ensures
        listing_is_ordered(sorted_listing(s)),
    decreases s.len(),
{
    if s.len() > 0 {
        lemma_sorted_listing_is_ordered(s.drop_last());
        lemma_insertion_point(sorted_listing(s.drop_last()), s.last());
        lemma_insert_keeps_order(sorted_listing(s.drop_last()), s.last());
    }
}

/// Sorting neither drops nor duplicates an entry.
pub proof fn lemma_sorted_listing_is_permutation(s: Seq<FsEntry>)
    ensures
        sorted_listing(s).to_multiset() == s.to_multiset(),
    decreases s.len(),
{
    if s.len() > 0 {
        lemma_sorted_listing_is_permutation(s.drop_last());
        let r = sorted_listing(s.drop_last());
        lemma_insertion_point(r, s.last());
        assert(s.drop_last().push(s.last()) =~= s);
    }
}

/// Whether `a` comes strictly before `b` in code-point order.
pub fn name_less(a: &str, b: &str) -> (r: bool)
    ensures
        r == name_lt(a@, b@),
{
    let va = chars_of(a);
    let vb = chars_of(b);
    let mut i: usize = 0;
    assert(va@.skip(0) =~= va@);
    assert(vb@.skip(0) =~= vb@);
    while i < va.len() && i < vb.len()
        invariant
            va@ == a@,
            vb@ == b@,
            i <= va@.len(),
            i <= vb@.len(),
            name_lt(a@, b@) == name_lt(va@.skip(i as int), vb@.skip(i as int)),
        decreases va@.len() - i,
    {
        if va[i] != vb[i] {
            return va[i] < vb[i];
        }
        assert(va@.skip(i as int).drop_first() =~= va@.skip(i + 1));
        assert(vb@.skip(i as int).drop_first() =~= vb@.skip(i + 1));
        i = i + 1;
    }
    va.len() < vb.len()
}

/// Whether entry `a` is listed strictly before entry `b`.
pub fn entry_less(a: &FsEntry, b: &FsEntry) -> (r: bool)
    ensures
        r == entry_before(*a, *b),
{
    if a.is_directory && !b.is_directory {
        true
    } else if a.is_directory == b.is_directory {
        name_less(a.name.as_str(), b.name.as_str())
    } else {
        false
    }
}

/// Orders a directory listing: directories first, then by name; entries that
/// compare equal keep their order.
pub fn sort_entries(entries: Vec<FsEntry>) -> (r: Vec<FsEntry>)
    ensures
        r@ == sorted_listing(entries@),
{
    let mut rest = entries;
    let ghost all = rest@;
    let mut out: Vec<FsEntry> = Vec::new();
    let ghost mut taken: Seq<FsEntry> = Seq::empty();
    assert(all =~= taken + rest@);
    while rest.len() > 0
        invariant
            all == taken + rest@,
            out@ == sorted_listing(taken),
        decreases rest@.len(),
    {
        let ghost before_rest = rest@;
        let e = rest.remove(0);
        let ghost taken_old = taken;
        let mut p = out.len();
        assert(out@.take(p as int) =~= out@);
        while p > 0 && entry_less(&e, &out[p - 1])
            invariant
                p <= out@.len(),
                insertion_point(out@, e) == insertion_point(out@.take(p as int), e),
            decreases p,
        {
            assert(out@.take(p as int).drop_last() =~= out@.take(p - 1));
            p = p - 1;
        }
        proof {
            taken = taken.push(e);
            assert(taken.drop_last() =~= taken_old);
            assert(all =~= taken + rest@);
        }
        out.insert(p, e);
    }
    assert(all =~= taken);
    out
}


// ---------------------------------------------------------------------------
// Reading, stat and create
// ---------------------------------------------------------------------------

/// Largest file the editor may read, in bytes.
pub const MAX_READ_BYTES: u64 = 5 * 1024 * 1024;

/// A file of `len` bytes may be read (a larger one is answered with 413).
pub fn fits_read_limit(len: u64) -> (r: bool)
    ensures
        r == (len <= MAX_READ_BYTES),
{
    len <= MAX_READ_BYTES
}

/// `Path::file_name` of a path given as a string.
pub uninterp spec fn path_file_name(path: Seq<char>) -> Option<Seq<char>>;

/// Position of the last `.` in a file name, or -1 when it has none.
pub open spec fn last_dot(name: Seq<char>) -> int
    decreases name.len(),
{
    if name.len() == 0 {
        -1
    } else if name.last() == '.' {
        name.len() - 1
    } else {
        last_dot(name.drop_last())
    }
}

/// The extension of a file name, as `Path::extension` documents it: none
/// without an embedded `.`, none for a name that begins with `.` and has no
/// other `.`, else the part after the final `.`.
pub open spec fn name_extension(name: Seq<char>) -> Option<Seq<char>> {
    let p = last_dot(name);
    if p <= 0 {
        None
    } else {
        Some(name.skip(p + 1))
    }
}

/// `Path::extension` of a path given as a string: the extension of its
/// file name, none when it has no file name.
pub open spec fn path_extension(path: Seq<char>) -> Option<Seq<char>> {
    match path_file_name(path) {
        Some(n) => name_extension(n),
        None => None,
    }
}

/// `std::path::Path::file_name`, read back as text; the contract names its
/// result, a function of the path alone.
#[verifier::external_body]
fn std_file_name(path: &str) -> (r: Option<String>)
    ensures
        match r {
            Some(s) => path_file_name(path@) == Some(s@),
            None => path_file_name(path@) == None::<Seq<char>>,
        },
{
    match std::path::Path::new(path).file_name() {
        Some(n) => Some(n.to_string_lossy().into_owned()),
        None => None,
    }
}

/// The position of the last `.` in `v`, if it has one.
fn last_dot_of(v: &Vec<char>) -> (r: Option<usize>)
    ensures
        match r {
            Some(j) => j == last_dot(v@) && j < v@.len(),
            None => last_dot(v@) == -1,
        },
{
    let mut j: usize = v.len();
    assert(v@.take(j as int) =~= v@);
    while j > 0 && v[j - 1] != '.'
        invariant
            j <= v@.len(),
            last_dot(v@) == last_dot(v@.take(j as int)),
        decreases j,
    {
        assert(v@.take(j as int).drop_last() =~= v@.take(j - 1));
        j = j - 1;
    }
    if j == 0 {
        None
    } else {
        assert(v@.take(j as int).last() == '.');
        Some(j - 1)
    }
}

/// The extension of a file name (see `name_extension`).
pub fn extension_of_name(name: &str) -> (r: Option<String>)
    ensures
        match r {
            Some(e) => name_extension(name@) == Some(e@),
            None => name_extension(name@) == None::<Seq<char>>,
        },
{
    let v = chars_of(name);
    let found = last_dot_of(&v);
    match found {
        None => None,
        Some(p) => if p == 0 {
            None
        } else {
            let n = v.len();
            assert(p < n);
            let e = crate::text::string_from_range(v.as_slice(), p + 1, n);
            assert(e@ =~= name@.skip(p + 1));
            Some(e)
        },
    }
}

/// A text, or empty where there is none.
pub fn text_or_empty(t: Option<String>) -> (r: String)
    ensures
        r@ == match t {
            Some(x) => x@,
            None => Seq::<char>::empty(),
        },
{
    match t {
        Some(x) => x,
        None => String::new(),
    }
}

/// An extension as it is shown: a dot and the extension (just a dot when
/// there is none).
pub fn dotted(ext: Option<String>) -> (r: String)
    ensures
        r@ == "."@ + match ext {
            Some(e) => e@,
            None => Seq::<char>::empty(),
        },
{
    match ext {
        Some(e) => concat2(".", e.as_str()),
        None => {
            let r = owned(".");
            assert(r@ =~= "."@ + Seq::<char>::empty());
            r
        },
    }
}

/// The name shown for a path: its last component, or empty.
pub fn display_name(path: &str) -> (r: String)
    ensures
        r@ == match path_file_name(path@) {
            Some(n) => n,
            None => Seq::<char>::empty(),
        },
{
    text_or_empty(std_file_name(path))
}

/// The extension shown for a path: a dot and its extension (just a dot when
/// it has none).
pub fn dotted_extension(path: &str) -> (r: String)
    ensures
        r@ == "."@ + match path_extension(path@) {
            Some(e) => e,
            None => Seq::<char>::empty(),
        },
{
    let ext = match std_file_name(path) {
        Some(n) => extension_of_name(n.as_str()),
        None => None,
    };
    dotted(ext)
}

/// `DateTime::<Utc>::from_timestamp(secs, 0)` written as RFC 3339, or `None`
/// where the timestamp is out of range.
pub uninterp spec fn rfc3339_utc(secs: i64) -> Option<Seq<char>>;

/// `chrono::DateTime::from_timestamp` followed by `to_rfc3339`; the
/// contract names the result, a function of the timestamp alone.
#[verifier::external_body]
fn utc_rfc3339(secs: i64) -> (r: Option<String>)
    ensures
        match r {
            Some(s) => rfc3339_utc(secs) == Some(s@),
            None => rfc3339_utc(secs) == None::<Seq<char>>,
        },
{
    match chrono::DateTime::from_timestamp(secs, 0) {
        Some(d) => Some(d.to_rfc3339()),
        None => None,
    }
}

/// A file time as the stat endpoint shows it: seconds since the epoch
/// (`None` when the time is unknown or before the epoch), read as a signed
/// number and written as RFC 3339 in UTC; empty when there is no such time.
pub fn format_time(secs: Option<u64>) -> (r: String)
    ensures
        r@ == match secs {
            Some(s) => match rfc3339_utc(s as i64) {
                Some(t) => t,
                None => Seq::<char>::empty(),
            },
            None => Seq::<char>::empty(),
        },
{
    match secs {
        Some(s) => text_or_empty(utc_rfc3339(s as i64)),
        None => String::new(),
    }
}

/// What a create request makes.
pub enum CreateAction {
    /// A directory, with its parents.
    Directory,
    /// A file with this content.
    File(String),
}

/// A create request of type `directory` makes a directory; any other makes
/// a file with the given content, or an empty one.
pub fn create_action(file_type: &str, content: Option<String>) -> (r: CreateAction)
    ensures
        match r {
            CreateAction::Directory => file_type@ == "directory"@,
            CreateAction::File(c) => file_type@ != "directory"@ && c@ == match content {
                Some(x) => x@,
                None => Seq::<char>::empty(),
            },
        },
{
    if str_eq(file_type, "directory") {
        CreateAction::Directory
    } else {
        CreateAction::File(
            match content {
                Some(c) => c,
                None => String::new(),
            },
        )
    }
}

}
