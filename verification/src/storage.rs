//! Errors of the persistence layer. The repository itself (SQLite) lives
//! outside this crate; its failures reach the library as these values.
use vstd::prelude::*;

use crate::kindroid::{parse_decimal_u64, parse_u64};
use crate::text::{chars_of, concat2, to_owned_string};

verus! {

/// A failure of the repository.
#[derive(Debug, Clone, PartialEq, Eq)]
pub enum StorageError {
    NotFound,
    Database(String),
    Invalid(String),
}

/// The text of a storage error.
pub open spec fn storage_error_text(e: StorageError) -> Seq<char> {
    match e {
        StorageError::NotFound => "not found"@,
        StorageError::Database(s) => "database error: "@ + s@,
        StorageError::Invalid(s) => "invalid input: "@ + s@,
    }
}

impl StorageError {
    /// The text of the error.
    pub fn message(&self) -> (res: String)
        ensures
            res@ == storage_error_text(*self),
    {
        match self {
            StorageError::NotFound => to_owned_string("not found"),
            StorageError::Database(s) => concat2("database error: ", s.as_str()),
            StorageError::Invalid(s) => concat2("invalid input: ", s.as_str()),
        }
    }
}

/// The file extension for stored image bytes, by their magic number:
/// PNG, JPEG, WebP, GIF, or `bin` for anything else.
pub open spec fn image_extension(b: Seq<u8>) -> Seq<char> {
    if b.len() >= 8 && b.take(8) == seq![0x89u8, 0x50, 0x4E, 0x47, 0x0D, 0x0A, 0x1A, 0x0A] {
        "png"@
    } else if b.len() >= 3 && b.take(3) == seq![0xFFu8, 0xD8, 0xFF] {
        "jpg"@
    } else if b.len() >= 12 && b.take(4) == seq![0x52u8, 0x49, 0x46, 0x46] && b.subrange(8, 12)
        == seq![0x57u8, 0x45, 0x42, 0x50] {
        "webp"@
    } else if b.len() >= 4 && b.take(4) == seq![0x47u8, 0x49, 0x46, 0x38] {
        "gif"@
    } else {
        "bin"@
    }
}

/// The file extension for stored image bytes.
pub fn detect_extension(bytes: &[u8]) -> (res: &'static str)
    ensures
        res@ == image_extension(bytes@),
{
    let n = bytes.len();
    if n >= 8 && bytes[0] == 0x89 && bytes[1] == 0x50 && bytes[2] == 0x4E && bytes[3] == 0x47
        && bytes[4] == 0x0D && bytes[5] == 0x0A && bytes[6] == 0x1A && bytes[7] == 0x0A {
        proof {
            assert(bytes@.take(8) =~= seq![0x89u8, 0x50, 0x4E, 0x47, 0x0D, 0x0A, 0x1A, 0x0A]);
        }
        return "png";
    }
    proof {
        if n >= 8 {
            let t = bytes@.take(8);
            if t == seq![0x89u8, 0x50, 0x4E, 0x47, 0x0D, 0x0A, 0x1A, 0x0A] {
                assert(t[0] == bytes@[0] && t[1] == bytes@[1] && t[2] == bytes@[2] && t[3]
                    == bytes@[3]);
                assert(t[4] == bytes@[4] && t[5] == bytes@[5] && t[6] == bytes@[6] && t[7]
                    == bytes@[7]);
            }
        }
    }
    if n >= 3 && bytes[0] == 0xFF && bytes[1] == 0xD8 && bytes[2] == 0xFF {
        proof {
            assert(bytes@.take(3) =~= seq![0xFFu8, 0xD8, 0xFF]);
        }
        return "jpg";
    }
    proof {
        if n >= 3 {
            let t = bytes@.take(3);
            if t == seq![0xFFu8, 0xD8, 0xFF] {
                assert(t[0] == bytes@[0] && t[1] == bytes@[1] && t[2] == bytes@[2]);
            }
        }
    }
    let riff = n >= 4 && bytes[0] == 0x52 && bytes[1] == 0x49 && bytes[2] == 0x46 && bytes[3]
        == 0x46;
    proof {
        if n >= 4 {
            let t = bytes@.take(4);
            if riff {
                assert(t =~= seq![0x52u8, 0x49, 0x46, 0x46]);
            }
            if t == seq![0x52u8, 0x49, 0x46, 0x46] {
                assert(t[0] == bytes@[0] && t[1] == bytes@[1] && t[2] == bytes@[2] && t[3]
                    == bytes@[3]);
            }
        }
    }
    if n >= 12 && riff && bytes[8] == 0x57 && bytes[9] == 0x45 && bytes[10] == 0x42 && bytes[11]
        == 0x50 {
        proof {
            assert(bytes@.subrange(8, 12) =~= seq![0x57u8, 0x45, 0x42, 0x50]);
        }
        return "webp";
    }
    proof {
        if n >= 12 {
            let t = bytes@.subrange(8, 12);
            if t == seq![0x57u8, 0x45, 0x42, 0x50] {
                assert(t[0] == bytes@[8] && t[1] == bytes@[9] && t[2] == bytes@[10] && t[3]
                    == bytes@[11]);
            }
        }
    }
    if n >= 4 && bytes[0] == 0x47 && bytes[1] == 0x49 && bytes[2] == 0x46 && bytes[3] == 0x38 {
        proof {
            assert(bytes@.take(4) =~= seq![0x47u8, 0x49, 0x46, 0x38]);
        }
        return "gif";
    }
    proof {
        if n >= 4 {
            let t = bytes@.take(4);
            if t == seq![0x47u8, 0x49, 0x46, 0x38] {
                assert(t[0] == bytes@[0] && t[1] == bytes@[1] && t[2] == bytes@[2] && t[3]
                    == bytes@[3]);
            }
        }
    }
    "bin"
}

/// The text of `s` up to its first `_` (all of it when there is none).
pub open spec fn before_underscore(s: Seq<char>) -> Seq<char>
    decreases s.len(),
{
    if s.len() == 0 {
        s
    } else if s[0] == '_' {
        Seq::empty()
    } else {
        seq![s[0]] + before_underscore(s.drop_first())
    }
}

/// What `str::parse::<u32>` accepts.
pub open spec fn parse_u32(s: Seq<char>) -> Option<u32> {
    match parse_u64(s) {
        Some(v) => if v <= u32::MAX {
            Some(v as u32)
        } else {
            None
        },
        None => None,
    }
}

/// The version of a migration file: the number before its first `_`.
pub open spec fn migration_version_of(name: Seq<char>) -> Option<u32> {
    parse_u32(before_underscore(name))
}

/// The version of a migration file, if its name starts with one.
pub fn migration_version(name: &str) -> (res: Option<u32>)
    ensures
        res == migration_version_of(name@),
{
    let cs = chars_of(name);
    let mut head: Vec<char> = Vec::new();
    let mut i: usize = 0;
    proof {
        assert(cs@.skip(0) == cs@);
        assert(head@ + before_underscore(cs@.skip(0)) == before_underscore(name@));
    }
    while i < cs.len() && cs[i] != '_'
        invariant
            i <= cs.len(),
            cs@ == name@,
            head@ + before_underscore(cs@.skip(i as int)) == before_underscore(name@),
        decreases cs.len() - i,
    {
        proof {
            let r = cs@.skip(i as int);
            assert(r[0] == cs@[i as int]);
            assert(r.drop_first() == cs@.skip(i + 1));
            assert(head@ + (seq![cs@[i as int]] + before_underscore(cs@.skip(i + 1))) == head@.push(
                cs@[i as int],
            ) + before_underscore(cs@.skip(i + 1)));
        }
        head.push(cs[i]);
        i = i + 1;
    }
    proof {
        if i < cs.len() {
            assert(cs@.skip(i as int)[0] == '_');
        }
        assert(head@ + Seq::<char>::empty() == head@);
    }
    match parse_decimal_u64(head.as_slice()) {
        Some(v) => if v <= 0xFFFF_FFFFu64 {
            Some(v as u32)
        } else {
            None
        },
        None => None,
    }
}

/// Insert `x` into a list sorted by version, after every entry whose
/// version is not larger.
pub open spec fn insert_by_version(sorted: Seq<(u32, Seq<char>)>, x: (u32, Seq<char>)) -> Seq<(u32, Seq<char>)>
    decreases sorted.len(),
{
    if sorted.len() == 0 {
        seq![x]
    } else if sorted.last().0 <= x.0 {
        sorted.push(x)
    } else {
        insert_by_version(sorted.drop_last(), x).push(sorted.last())
    }
}

/// Migrations stably sorted by version: those with equal versions keep
/// their order.
pub open spec fn sorted_by_version(ms: Seq<(u32, Seq<char>)>) -> Seq<(u32, Seq<char>)>
    decreases ms.len(),
{
    if ms.len() == 0 {
        Seq::empty()
    } else {
        insert_by_version(sorted_by_version(ms.drop_last()), ms.last())
    }
}

/// Are the migrations in non-decreasing version order?
pub open spec fn version_sorted(ms: Seq<(u32, Seq<char>)>) -> bool {
    forall|i: int, j: int| 0 <= i < j < ms.len() ==> #[trigger] ms[i].0 <= #[trigger] ms[j].0
}

/// The migrations of version `w`, in their order in `ms`.
pub open spec fn of_version(ms: Seq<(u32, Seq<char>)>, w: u32) -> Seq<(u32, Seq<char>)>
    decreases ms.len(),
{
    if ms.len() == 0 {
        Seq::empty()
    } else if ms.last().0 == w {
        of_version(ms.drop_last(), w).push(ms.last())
    } else {
        of_version(ms.drop_last(), w)
    }
}

proof fn lemma_insert_bounded(s: Seq<(u32, Seq<char>)>, x: (u32, Seq<char>), b: u32)
    requires
        forall|i: int| 0 <= i < s.len() ==> #[trigger] s[i].0 <= b,
        x.0 <= b,
    ensures
        insert_by_version(s, x).len() == s.len() + 1,
        forall|i: int| 0 <= i < insert_by_version(s, x).len() ==> #[trigger] insert_by_version(s, x)[i].0 <= b,
    decreases s.len(),
{
    if s.len() > 0 && s.last().0 > x.0 {
        let init = s.drop_last();
        assert forall|i: int| 0 <= i < init.len() implies #[trigger] init[i].0 <= b by {
            assert(init[i] == s[i]);
        }
        lemma_insert_bounded(init, x, b);
        let r = insert_by_version(init, x);
        assert forall|i: int| 0 <= i < r.push(s.last()).len() implies #[trigger] r.push(s.last())[i].0 <= b by {
            if i < r.len() {
                assert(r.push(s.last())[i] == r[i]);
            } else {
                assert(s.last() == s[s.len() - 1]);
            }
        }
    } else if s.len() > 0 {
        assert forall|i: int| 0 <= i < s.push(x).len() implies #[trigger] s.push(x)[i].0 <= b by {
            if i < s.len() {
                assert(s.push(x)[i] == s[i]);
            }
        }
    }
}

proof fn lemma_insert_sorted(s: Seq<(u32, Seq<char>)>, x: (u32, Seq<char>))
    requires
        version_sorted(s),
    ensures
        version_sorted(insert_by_version(s, x)),
        forall|w: u32|
            #[trigger] of_version(insert_by_version(s, x), w) == if x.0 == w {
                of_version(s, w).push(x)
            } else {
                of_version(s, w)
            },
    decreases s.len(),
{
    if s.len() == 0 {
        assert forall|w: u32| #[trigger] of_version(insert_by_version(s, x), w) == if x.0 == w {
            of_version(s, w).push(x)
        } else {
            of_version(s, w)
        } by {
            assert(seq![x].drop_last() =~= s);
        }
    } else if s.last().0 <= x.0 {
        let r = s.push(x);
        assert(r.drop_last() =~= s);
        assert forall|i: int, j: int| 0 <= i < j < r.len() implies #[trigger] r[i].0 <= #[trigger] r[j].0 by {
            if j < s.len() {
                assert(r[i] == s[i] && r[j] == s[j]);
            } else {
                assert(r[i] == s[i]);
                if i < s.len() - 1 {
                    assert(s[i].0 <= s[s.len() - 1].0);
                }
            }
        }
    } else {
        let init = s.drop_last();
        let last = s.last();
        assert(version_sorted(init)) by {
            assert forall|i: int, j: int| 0 <= i < j < init.len() implies #[trigger] init[i].0 <= #[trigger] init[j].0 by {
                assert(init[i] == s[i] && init[j] == s[j]);
            }
        }
        lemma_insert_sorted(init, x);
        let q = insert_by_version(init, x);
        assert forall|i: int| 0 <= i < init.len() implies #[trigger] init[i].0 <= last.0 by {
            assert(init[i] == s[i]);
            assert(last == s[s.len() - 1]);
        }
        lemma_insert_bounded(init, x, last.0);
        let r = q.push(last);
        assert(r.drop_last() =~= q);
        assert forall|i: int, j: int| 0 <= i < j < r.len() implies #[trigger] r[i].0 <= #[trigger] r[j].0 by {
            if j < q.len() {
                assert(r[i] == q[i] && r[j] == q[j]);
            } else {
                assert(r[i] == q[i]);
            }
        }
        assert forall|w: u32| #[trigger] of_version(r, w) == if x.0 == w {
            of_version(s, w).push(x)
        } else {
            of_version(s, w)
        } by {
            assert(of_version(q, w) == if x.0 == w {
                of_version(init, w).push(x)
            } else {
                of_version(init, w)
            });
        }
    }
}

/// Sorting keeps the migrations in version order and, for each version,
/// exactly the input's migrations of that version in their input order:
/// the result is the stable sort of the input by version.
pub proof fn sorted_by_version_is_stable_sort(ms: Seq<(u32, Seq<char>)>)
    ensures
        version_sorted(sorted_by_version(ms)),
        forall|w: u32| #[trigger] of_version(sorted_by_version(ms), w) == of_version(ms, w),
    decreases ms.len(),
{
    if ms.len() > 0 {
        sorted_by_version_is_stable_sort(ms.drop_last());
        lemma_insert_sorted(sorted_by_version(ms.drop_last()), ms.last());
        assert forall|w: u32| #[trigger] of_version(sorted_by_version(ms), w) == of_version(ms, w) by {
            assert(of_version(sorted_by_version(ms.drop_last()), w) == of_version(ms.drop_last(), w));
        }
    }
}

/// The views of migrations.
pub open spec fn migration_views(ms: Seq<(u32, String)>) -> Seq<(u32, Seq<char>)> {
    ms.map_values(|m: (u32, String)| (m.0, m.1@))
}

/// The first migration name, from `i` on, without a version.
pub open spec fn first_bad_name(names: Seq<(String, String)>, i: nat) -> Option<Seq<char>>
    decreases names.len() - i,
{
    if i >= names.len() {
        None
    } else if migration_version_of(names[i as int].0@) is None {
        Some(names[i as int].0@)
    } else {
        first_bad_name(names, i + 1)
    }
}

/// The migrations with their versions, in input order.
pub open spec fn versioned(files: Seq<(String, String)>) -> Seq<(u32, Seq<char>)> {
    files.map_values(|f: (String, String)| (migration_version_of(f.0@)->0, f.1@))
}

fn insert_sorted(out: &mut Vec<(u32, String)>, x: (u32, String))
    ensures
        migration_views(final(out)@) == insert_by_version(migration_views(old(out)@), (x.0, x.1@)),
    decreases old(out)@.len(),
{
    let n = out.len();
    if n == 0 {
        out.push(x);
        proof {
            assert(migration_views(out@) =~= seq![(x.0, x.1@)]);
        }
        return;
    }
    if out[n - 1].0 <= x.0 {
        let ghost before = migration_views(out@);
        out.push(x);
        proof {
            assert(migration_views(out@) =~= before.push((x.0, x.1@)));
        }
        return;
    }
    let ghost before = migration_views(out@);
    let last = out.pop().unwrap();
    proof {
        assert(migration_views(out@) =~= before.drop_last());
    }
    insert_sorted(out, x);
    let ghost mid = migration_views(out@);
    out.push(last);
    proof {
        assert(migration_views(out@) =~= mid.push(before.last()));
    }
}

/// Number the migration files by the version their names start with and
/// sort them stably by version; a file whose name has no version is an
/// error naming it.
pub fn discover_migrations(files: Vec<(String, String)>) -> (res: Result<Vec<(u32, String)>, String>)
    ensures
        match first_bad_name(files@, 0) {
            Some(n) => res matches Err(m) && m@ == "bad migration name: "@ + n,
            None => res matches Ok(v) && migration_views(v@) == sorted_by_version(versioned(files@)),
        },
        res matches Ok(v) ==> version_sorted(migration_views(v@)),
        res matches Ok(v) ==> forall|w: u32|
            #[trigger] of_version(migration_views(v@), w) == of_version(versioned(files@), w),
{
    let ghost all = files@;
    let mut out: Vec<(u32, String)> = Vec::new();
    let mut i: usize = 0;
    proof {
        assert(migration_views(out@) =~= sorted_by_version(versioned(all).take(0)));
    }
    while i < files.len()
        invariant
            i <= files.len(),
            files@ == all,
            first_bad_name(all, 0) == first_bad_name(all, i as nat),
            first_bad_name(all, 0) is None ==> migration_views(out@) == sorted_by_version(
                versioned(all).take(i as int),
            ),
        decreases files.len() - i,
    {
        let v = migration_version(files[i].0.as_str());
        match v {
            None => {
                proof {
                    assert(all[i as int].0@ == files@[i as int].0@);
                    assert(first_bad_name(all, i as nat) == Some(all[i as int].0@));
                }
                let msg = concat2("bad migration name: ", files[i].0.as_str());
                proof {
                    assert(first_bad_name(all, 0) == Some(all[i as int].0@));
                    assert(msg@ == "bad migration name: "@ + all[i as int].0@);
                }
                return Err(msg);
            },
            Some(version) => {
                proof {
                    let t = versioned(all).take(i + 1);
                    assert(t.drop_last() == versioned(all).take(i as int));
                    assert(t.last() == (version, all[i as int].1@));
                }
                let body = files[i].1.clone();
                insert_sorted(&mut out, (version, body));
            },
        }
        i = i + 1;
    }
    proof {
        assert(versioned(all).take(all.len() as int) == versioned(all));
        sorted_by_version_is_stable_sort(versioned(all));
    }
    Ok(out)
}

/// The version a database is at after migrating: the last migration's,
/// or 0 without migrations.
pub fn target_version(ms: &[(u32, String)]) -> (res: u32)
    ensures
        ms@.len() == 0 ==> res == 0,
        ms@.len() > 0 ==> res == ms@.last().0,
{
    if ms.len() == 0 {
        0
    } else {
        ms[ms.len() - 1].0
    }
}

/// Should a migration run on a database at `current`?
pub fn migration_applies(version: u32, current: i64) -> (res: bool)
    ensures
        res == (version > current),
{
    (version as i64) > current
}

} // verus!
