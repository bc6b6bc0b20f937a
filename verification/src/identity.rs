//! Where a project lives on the remote machine: a name made of the project
//! directory's base name and a fingerprint of the whole local path.

use std::collections::hash_map::DefaultHasher;
use std::hash::Hasher;
use vstd::prelude::*;
use vstd::std_specs::hash::DefaultHasherAdditionalSpecFns;
use vstd::string::StrSliceExecFns;
use vstd::string::StringExecFns;
use vstd::utf8::decode_utf8;
use vstd::utf8::valid_utf8;

verus! {

/// The byte that parts the components of a path.
pub const SLASH: u8 = 47;

/// The byte of which the components `.` and `..` are made.
pub const DOT: u8 = 46;

/// Whether `p` ends in a slash, or in a `.` that stands behind a slash:
/// neither names anything.
pub open spec fn ends_idly(p: Seq<u8>) -> bool {
    p.len() > 0 && (p.last() == SLASH || (p.len() >= 2 && p.last() == DOT && p[p.len() - 2]
        == SLASH))
}

/// The length of `p` without the slashes and the components `.` at its end.
pub open spec fn trimmed_len(p: Seq<u8>) -> nat
    decreases p.len(),
{
    if ends_idly(p) {
        trimmed_len(p.drop_last())
    } else {
        p.len()
    }
}

/// Where the last component of `p` starts: behind the last slash, or at 0
/// where `p` has none.
pub open spec fn component_start(p: Seq<u8>) -> nat
    decreases p.len(),
{
    if p.len() > 0 && p.last() != SLASH {
        component_start(p.drop_last())
    } else {
        p.len()
    }
}

/// The last component of `p`, slashes and components `.` at the end of `p`
/// left aside.
pub open spec fn last_component(p: Seq<u8>) -> Seq<u8> {
    let q = p.take(trimmed_len(p) as int);
    q.skip(component_start(q) as int)
}

/// The base name of the directory that `p` names, where it has one: the
/// empty path, the root, the path `.` and a path that ends in `..` have
/// none.
pub open spec fn base_name(p: Seq<u8>) -> Option<Seq<u8>> {
    let c = last_component(p);
    if c.len() == 0 || c == seq![DOT] || c == seq![DOT, DOT] {
        None
    } else {
        Some(c)
    }
}

/// The last component is a stretch of the path that holds no slash: a slash
/// or the path's start stands in front of it, and only slashes and dots
/// follow it.
pub proof fn last_component_is_between_slashes(p: Seq<u8>)
    ensures
        component_start(p.take(trimmed_len(p) as int)) <= trimmed_len(p) <= p.len(),
        forall|i: int| 0 <= i < last_component(p).len() ==> #[trigger] last_component(p)[i] != SLASH,
        forall|i: int|
            trimmed_len(p) <= i < p.len() ==> #[trigger] p[i] == SLASH || p[i] == DOT,
        component_start(p.take(trimmed_len(p) as int)) > 0 ==> p[component_start(
            p.take(trimmed_len(p) as int),
        ) - 1] == SLASH,
        trimmed_len(p) > 0 ==> p[trimmed_len(p) - 1] != SLASH,
{
    lemma_trimmed(p);
    lemma_component(p.take(trimmed_len(p) as int));
}

proof fn lemma_trimmed(p: Seq<u8>)
    ensures
        trimmed_len(p) <= p.len(),
        forall|i: int|
            trimmed_len(p) <= i < p.len() ==> #[trigger] p[i] == SLASH || p[i] == DOT,
        trimmed_len(p) > 0 ==> p[trimmed_len(p) - 1] != SLASH,
    decreases p.len(),
{
    if ends_idly(p) {
        lemma_trimmed(p.drop_last());
        assert forall|i: int| trimmed_len(p) <= i < p.len() implies #[trigger] p[i] == SLASH
            || p[i] == DOT by {
            if i < p.len() - 1 {
                assert(p.drop_last()[i] == p[i]);
            }
        }
    }
}

proof fn lemma_component(q: Seq<u8>)
    ensures
        component_start(q) <= q.len(),
        forall|i: int| component_start(q) <= i < q.len() ==> #[trigger] q[i] != SLASH,
        component_start(q) > 0 ==> q[component_start(q) - 1] == SLASH,
    decreases q.len(),
{
    if q.len() > 0 && q.last() != SLASH {
        lemma_component(q.drop_last());
        assert forall|i: int| component_start(q) <= i < q.len() implies #[trigger] q[i]
            != SLASH by {
            if i < q.len() - 1 {
                assert(q.drop_last()[i] == q[i]);
            }
        }
    }
}

/// The base name of the directory that `path` names, or `None` where it has
/// none.
pub fn file_name(path: &[u8]) -> (r: Option<Vec<u8>>)
    ensures
        match r {
            Some(name) => base_name(path@) == Some(name@),
            None => base_name(path@).is_none(),
        },
{
    let mut end: usize = path.len();
    assert(path@.take(end as int) =~= path@);
    while end > 0 && (path[end - 1] == SLASH || (end >= 2 && path[end - 1] == DOT && path[end - 2]
        == SLASH))
        invariant
            end <= path.len(),
            trimmed_len(path@) == trimmed_len(path@.take(end as int)),
        decreases end,
    {
        assert(ends_idly(path@.take(end as int)));
        assert(path@.take(end as int).drop_last() =~= path@.take(end - 1));
        end -= 1;
    }
    let ghost q = path@.take(end as int);
    assert(!ends_idly(q));
    assert(trimmed_len(path@) == end);
    let mut start: usize = end;
    assert(q.take(start as int) =~= q);
    while start > 0 && path[start - 1] != SLASH
        invariant
            start <= end <= path.len(),
            q == path@.take(end as int),
            component_start(q) == component_start(q.take(start as int)),
        decreases start,
    {
        assert(q.take(start as int).drop_last() =~= q.take(start - 1));
        start -= 1;
    }
    assert(component_start(q) == start);
    let mut name: Vec<u8> = Vec::new();
    let mut i: usize = start;
    while i < end
        invariant
            start <= i <= end <= path.len(),
            name@ == path@.subrange(start as int, i as int),
        decreases end - i,
    {
        name.push(path[i]);
        assert(name@ =~= path@.subrange(start as int, i + 1));
        i += 1;
    }
    assert(name@ =~= last_component(path@));
    let n: usize = name.len();
    if n == 0 || (n == 1 && name[0] == DOT) || (n == 2 && name[0] == DOT && name[1] == DOT) {
        assert(n == 1 ==> name@ =~= seq![DOT]);
        assert(n == 2 ==> name@ =~= seq![DOT, DOT]);
        None
    } else {
        assert(name@ != seq![DOT]) by {
            if name@ == seq![DOT] {
                assert(name@.len() == 1 && name@[0] == DOT);
            }
        }
        assert(name@ != seq![DOT, DOT]) by {
            if name@ == seq![DOT, DOT] {
                assert(name@.len() == 2 && name@[0] == DOT && name@[1] == DOT);
            }
        }
        Some(name)
    }
}

/// The fingerprint of a path: what a hasher that was fed the path's bytes in
/// one piece gives. It depends on the bytes alone.
pub open spec fn fingerprint_of(path: Seq<u8>) -> u64 {
    DefaultHasher::spec_finish(seq![path])
}

/// The 64-bit fingerprint of `path`, over all of its bytes.
pub fn fingerprint(path: &[u8]) -> (r: u64)
    ensures
        r == fingerprint_of(path@),
{
    let mut hasher = DefaultHasher::new();
    hasher.write(path);
    assert(hasher@ =~= seq![path@]);
    hasher.finish()
}

/// The digit for `d` in base 16, as a string of one character.
pub open spec fn hex_digit(d: nat) -> Seq<char>
    recommends
        d < 16,
{
    "0123456789abcdef"@.subrange(d as int, d as int + 1)
}

/// `n` in base 16, with lower-case letters and without leading zeros.
pub open spec fn hex(n: nat) -> Seq<char>
    decreases n,
{
    if n < 16 {
        hex_digit(n)
    } else {
        hex(n / 16) + hex_digit(n % 16)
    }
}

/// `value` in base 16, with lower-case letters and without leading zeros.
pub fn to_hex(value: u64) -> (r: String)
    ensures
        r@ == hex(value as nat),
{
    proof {
        reveal_strlit("0123456789abcdef");
    }
    let digits = "0123456789abcdef";
    let last: usize = (value % 16) as usize;
    let mut out = digits.substring_char(last, last + 1).to_owned();
    let mut n: u64 = value / 16;
    while n > 0
        invariant
            digits@ == "0123456789abcdef"@,
            digits@.len() == 16,
            hex(value as nat) == if n == 0 {
                out@
            } else {
                hex(n as nat) + out@
            },
        decreases n,
    {
        let d: usize = (n % 16) as usize;
        let mut next = digits.substring_char(d, d + 1).to_owned();
        next.append(out.as_str());
        proof {
            assert(next@ == hex_digit(d as nat) + out@);
            if n >= 16 {
                assert(hex(n as nat) + out@ =~= hex((n / 16) as nat) + next@);
            }
        }
        out = next;
        n = n / 16;
    }
    out
}

/// What `String::from_utf8_lossy` makes of a sequence of bytes.
pub uninterp spec fn utf8_lossy(bytes: Seq<u8>) -> Seq<char>;

/// Decodes bytes through std's `String::from_utf8_lossy`, which puts the
/// replacement character in place of what is no UTF-8. The contract names the
/// result after the bytes, and claims what std documents of valid UTF-8: it
/// is decoded unchanged.
#[verifier::external_body]
fn decode_lossy(bytes: &[u8]) -> (r: String)
    ensures
        r@ == utf8_lossy(bytes@),
        valid_utf8(bytes@) ==> r@ == decode_utf8(bytes@),
{
    String::from_utf8_lossy(bytes).into_owned()
}

/// The name of a workspace: the project's name, or `xxx` where it has none,
/// then a hyphen and the fingerprint in base 16.
pub open spec fn workspace_name(name: Option<Seq<char>>, fingerprint: u64) -> Seq<char> {
    (match name {
        Some(n) => n,
        None => "xxx"@,
    }) + "-"@ + hex(fingerprint as nat)
}

/// The name of the workspace of a project with this name and fingerprint.
pub fn name_workspace(name: Option<&str>, fingerprint: u64) -> (r: String)
    ensures
        r@ == workspace_name(
            match name {
                Some(n) => Some(n@),
                None => None,
            },
            fingerprint,
        ),
{
    let mut out = match name {
        Some(n) => n.to_owned(),
        None => "xxx".to_owned(),
    };
    out.append("-");
    out.append(to_hex(fingerprint).as_str());
    out
}

/// The name of the project at `path`, as it is shown in the workspace's
/// name: its base name, decoded.
pub open spec fn project_name(path: Seq<u8>) -> Option<Seq<char>> {
    match base_name(path) {
        Some(b) => Some(utf8_lossy(b)),
        None => None,
    }
}

/// The name of the workspace of the project at `path`.
pub open spec fn workspace_id_of(path: Seq<u8>) -> Seq<char> {
    workspace_name(project_name(path), fingerprint_of(path))
}

/// The name of the remote workspace of the project at `path`. It never
/// fails, and depends on the bytes of `path` alone. A base name in valid
/// UTF-8 stands in it unchanged.
pub fn workspace_id(path: &[u8]) -> (r: String)
    ensures
        r@ == workspace_id_of(path@),
        match base_name(path@) {
            Some(b) => valid_utf8(b) ==> r@ == decode_utf8(b) + "-"@ + hex(
                fingerprint_of(path@) as nat,
            ),
            None => r@ == "xxx"@ + "-"@ + hex(fingerprint_of(path@) as nat),
        },
{
    let fp = fingerprint(path);
    match file_name(path) {
        Some(bytes) => {
            let name = decode_lossy(bytes.as_slice());
            name_workspace(Some(name.as_str()), fp)
        },
        None => name_workspace(None, fp),
    }
}

/// The remote directory of the project at `path`, below the remote home,
/// which is written `$HOME`.
pub fn project_path(path: &[u8]) -> (r: String)
    ensures
        r@ == "$HOME/.distant/"@ + workspace_id_of(path@),
        match base_name(path@) {
            Some(b) => valid_utf8(b) ==> r@ == "$HOME/.distant/"@ + decode_utf8(b) + "-"@ + hex(
                fingerprint_of(path@) as nat,
            ),
            None => r@ == "$HOME/.distant/"@ + "xxx"@ + "-"@ + hex(fingerprint_of(path@) as nat),
        },
{
    let mut out = "$HOME/.distant/".to_owned();
    let id = workspace_id(path);
    out.append(id.as_str());
    proof {
        let home = "$HOME/.distant/"@;
        let tail = "-"@ + hex(fingerprint_of(path@) as nat);
        let digits = hex(fingerprint_of(path@) as nat);
        match base_name(path@) {
            Some(b) => {
                if valid_utf8(b) {
                    assert(home + (decode_utf8(b) + "-"@ + digits) =~= home + decode_utf8(b) + "-"@
                        + digits);
                }
            },
            None => {
                assert(home + ("xxx"@ + "-"@ + digits) =~= home + "xxx"@ + "-"@ + digits);
            },
        }
    }
    out
}

/// The same path gives the same workspace, whenever and wherever it is
/// asked for.
pub proof fn same_path_same_workspace(one: Seq<u8>, other: Seq<u8>)
    requires
        one == other,
    ensures
        workspace_id_of(one) == workspace_id_of(other),
{
}

proof fn lemma_hex_digit(d: nat)
    requires
        d < 16,
    ensures
        hex_digit(d).len() == 1,
        hex_digit(d)[0] == "0123456789abcdef"@[d as int],
        hex_digit(d)[0] != '-',
{
    reveal_strlit("0123456789abcdef");
    assert(d == 0 || d == 1 || d == 2 || d == 3 || d == 4 || d == 5 || d == 6 || d == 7 || d == 8
        || d == 9 || d == 10 || d == 11 || d == 12 || d == 13 || d == 14 || d == 15);
}

proof fn lemma_hex_digit_injective(a: nat, b: nat)
    requires
        a < 16,
        b < 16,
        hex_digit(a) == hex_digit(b),
    ensures
        a == b,
{
    lemma_hex_digit(a);
    lemma_hex_digit(b);
    reveal_strlit("0123456789abcdef");
    assert(a == 0 || a == 1 || a == 2 || a == 3 || a == 4 || a == 5 || a == 6 || a == 7 || a == 8
        || a == 9 || a == 10 || a == 11 || a == 12 || a == 13 || a == 14 || a == 15);
    assert(b == 0 || b == 1 || b == 2 || b == 3 || b == 4 || b == 5 || b == 6 || b == 7 || b == 8
        || b == 9 || b == 10 || b == 11 || b == 12 || b == 13 || b == 14 || b == 15);
}

proof fn lemma_hex_shape(n: nat)
    ensures
        hex(n).len() >= 1,
        n >= 16 ==> hex(n).len() >= 2,
        forall|i: int| 0 <= i < hex(n).len() ==> #[trigger] hex(n)[i] != '-',
    decreases n,
{
    if n < 16 {
        lemma_hex_digit(n);
    } else {
        lemma_hex_shape(n / 16);
        lemma_hex_digit(n % 16);
    }
}

/// Two numbers with the same digits in base 16 are the same number.
pub proof fn hex_is_injective(a: nat, b: nat)
    requires
        hex(a) == hex(b),
    ensures
        a == b,
    decreases a,
{
    lemma_hex_shape(a);
    lemma_hex_shape(b);
    if a < 16 && b < 16 {
        lemma_hex_digit_injective(a, b);
    } else if a >= 16 && b >= 16 {
        lemma_hex_digit(a % 16);
        lemma_hex_digit(b % 16);
        let da = hex_digit(a % 16);
        let db = hex_digit(b % 16);
        assert(hex(a).drop_last() =~= hex(a / 16));
        assert(hex(b).drop_last() =~= hex(b / 16));
        assert(hex(a).last() == da[0]);
        assert(hex(b).last() == db[0]);
        assert(da =~= db);
        lemma_hex_digit_injective(a % 16, b % 16);
        hex_is_injective(a / 16, b / 16);
    } else if a < 16 {
        lemma_hex_digit(a);
    } else {
        lemma_hex_digit(b);
    }
}

/// Two workspaces with the same name have the same fingerprint: the name of
/// a project never makes up for a difference between fingerprints, so two
/// paths share a workspace only where their fingerprints collide.
pub proof fn same_workspace_same_fingerprint(
    name1: Option<Seq<char>>,
    fingerprint1: u64,
    name2: Option<Seq<char>>,
    fingerprint2: u64,
)
    requires
        workspace_name(name1, fingerprint1) == workspace_name(name2, fingerprint2),
    ensures
        fingerprint1 == fingerprint2,
{
    reveal_strlit("-");
    let n1 = match name1 {
        Some(n) => n,
        None => "xxx"@,
    };
    let n2 = match name2 {
        Some(n) => n,
        None => "xxx"@,
    };
    let h1 = hex(fingerprint1 as nat);
    let h2 = hex(fingerprint2 as nat);
    let w = n1 + "-"@ + h1;
    lemma_hex_shape(fingerprint1 as nat);
    lemma_hex_shape(fingerprint2 as nat);
    assert(w == n2 + "-"@ + h2);
    assert(w.len() == n1.len() + 1 + h1.len());
    assert(w.len() == n2.len() + 1 + h2.len());
    assert(w[n1.len() as int] == '-');
    assert((n2 + "-"@ + h2)[n2.len() as int] == '-');
    if n1.len() < n2.len() {
        assert(w[n2.len() as int] == h1[n2.len() - n1.len() - 1]);
    } else if n2.len() < n1.len() {
        assert((n2 + "-"@ + h2)[n1.len() as int] == h2[n1.len() - n2.len() - 1]);
    }
    assert(n1.len() == n2.len());
    assert(h1 =~= w.skip(n1.len() as int + 1));
    assert(h2 =~= (n2 + "-"@ + h2).skip(n2.len() as int + 1));
    hex_is_injective(fingerprint1 as nat, fingerprint2 as nat);
}

/// Two paths with the same workspace have the same fingerprint.
pub proof fn shared_workspace_shared_fingerprint(one: Seq<u8>, other: Seq<u8>)
    requires
        workspace_id_of(one) == workspace_id_of(other),
    ensures
        fingerprint_of(one) == fingerprint_of(other),
{
    same_workspace_same_fingerprint(
        project_name(one),
        fingerprint_of(one),
        project_name(other),
        fingerprint_of(other),
    );
}

} // verus!
