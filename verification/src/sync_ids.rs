//! Content-pure sync identities for a library import: which songs keep their
//! raw id and which derive a fresh, deterministic one.
use crate::sync::{name_views, names_contain};
use crate::text::{chars_of, decimal, extend_chars, string_from_chars, trim_spec, u32_decimal};
use crate::uuid_text::{uuid_v5_string, uuid_v5_text};
use vstd::prelude::*;
use vstd::string::StringExecFns;
use vstd::utf8::encode_utf8;

verus! {

/// The raw sync id a song imports with: its own id when present and not
/// blank, else the name-based fallback.
pub fn choose_raw_sync_id(own: Option<&str>, fallback: &str) -> (r: String)
    ensures
        (own is Some && trim_spec(own->0@).len() > 0) ==> r@ == own->0@,
        !(own is Some && trim_spec(own->0@).len() > 0) ==> r@ == fallback@,
{
    match own {
        Some(s) => {
            let t = crate::text::trim(s);
            if t.as_str().unicode_len() > 0 {
                String::from_str(s)
            } else {
                String::from_str(fallback)
            }
        },
        None => String::from_str(fallback),
    }
}

/// The number of times `x` occurs in `s`.
pub open spec fn occurrences(s: Seq<Seq<char>>, x: Seq<char>) -> nat
    decreases s.len(),
{
    if s.len() == 0 {
        0
    } else {
        occurrences(s.drop_last(), x) + if s.last() == x {
            1nat
        } else {
            0nat
        }
    }
}

/// The text hashed for the `k`-th derivation attempt: `raw/library/name`,
/// with `/k` appended from the second attempt on.
pub open spec fn derivation_key(raw: Seq<char>, library: Seq<char>, name: Seq<char>, k: nat) -> Seq<char> {
    let base = raw + "/"@ + library + "/"@ + name;
    if k == 1 {
        base
    } else {
        base + "/"@ + decimal(k)
    }
}

/// The `k`-th derived candidate: the version-5 UUID of the derivation key.
pub open spec fn derived_candidate(
    namespace: u128,
    raw: Seq<char>,
    library: Seq<char>,
    name: Seq<char>,
    k: nat,
) -> Seq<char> {
    uuid_v5_text(namespace, encode_utf8(derivation_key(raw, library, name, k)))
}

/// Whether `r` is the first derived candidate that neither this scan has
/// already assigned nor another library uses.
pub open spec fn is_first_free_derivation(
    namespace: u128,
    raw: Seq<char>,
    library: Seq<char>,
    name: Seq<char>,
    assigned: Seq<Seq<char>>,
    foreign: Seq<Seq<char>>,
    r: Seq<char>,
) -> bool {
    exists|k: nat|
        1 <= k <= u32::MAX && r == derived_candidate(namespace, raw, library, name, k) && !assigned.contains(r)
            && !foreign.contains(r) && forall|j: nat|
            1 <= j < k ==> (assigned.contains(
                #[trigger] derived_candidate(namespace, raw, library, name, j),
            ) || foreign.contains(derived_candidate(namespace, raw, library, name, j)))
}

/// Whether every attempt `1..=u32::MAX` is taken.
pub open spec fn all_derivations_taken(
    namespace: u128,
    raw: Seq<char>,
    library: Seq<char>,
    name: Seq<char>,
    assigned: Seq<Seq<char>>,
    foreign: Seq<Seq<char>>,
) -> bool {
    forall|j: nat|
        1 <= j <= u32::MAX ==> (assigned.contains(
            #[trigger] derived_candidate(namespace, raw, library, name, j),
        ) || foreign.contains(derived_candidate(namespace, raw, library, name, j)))
}

fn push_str(v: &mut Vec<char>, s: &str)
    ensures
        final(v)@ == old(v)@ + s@,
{
    let c = chars_of(s);
    extend_chars(v, &c);
}

fn build_key(raw: &Vec<char>, library: &Vec<char>, name: &Vec<char>, k: u32) -> (r: String)
    requires
        k >= 1,
    ensures
        r@ == derivation_key(raw@, library@, name@, k as nat),
{
    let mut v: Vec<char> = Vec::new();
    extend_chars(&mut v, raw);
    push_str(&mut v, "/");
    extend_chars(&mut v, library);
    push_str(&mut v, "/");
    extend_chars(&mut v, name);
    if k != 1 {
        push_str(&mut v, "/");
        let d = u32_decimal(k);
        extend_chars(&mut v, &d);
    }
    string_from_chars(&v)
}

/// Derives the sync id of a song whose raw id is not content-pure unique:
/// the UUIDv5 of `raw/library/name`, or of `raw/library/name/k` for the
/// least `k` whose UUID is neither already assigned in this scan nor used by
/// another library. `None` only when every attempt up to `u32::MAX` is taken.
pub fn derive_sync_id(
    namespace: u128,
    raw: &str,
    library_name: &str,
    presentation_name: &str,
    assigned: &Vec<String>,
    foreign: &Vec<String>,
) -> (r: Option<String>)
    ensures
        r is Some ==> is_first_free_derivation(
            namespace,
            raw@,
            library_name@,
            presentation_name@,
            name_views(assigned@),
            name_views(foreign@),
            r->0@,
        ),
        r is None ==> all_derivations_taken(
            namespace,
            raw@,
            library_name@,
            presentation_name@,
            name_views(assigned@),
            name_views(foreign@),
        ),
{
    let raw_c = chars_of(raw);
    let lib_c = chars_of(library_name);
    let name_c = chars_of(presentation_name);
    let ghost a = name_views(assigned@);
    let ghost f = name_views(foreign@);
    let mut k: u32 = 1;
    loop
        invariant
            1 <= k,
            raw_c@ == raw@,
            lib_c@ == library_name@,
            name_c@ == presentation_name@,
            a == name_views(assigned@),
            f == name_views(foreign@),
            forall|j: nat|
                1 <= j < k ==> (a.contains(
                    #[trigger] derived_candidate(namespace, raw@, library_name@, presentation_name@, j),
                ) || f.contains(derived_candidate(namespace, raw@, library_name@, presentation_name@, j))),
        decreases u32::MAX - k,
    {
        let key = build_key(&raw_c, &lib_c, &name_c, k);
        let candidate = uuid_v5_string(namespace, key.as_str().as_bytes());
        let cand_c = chars_of(candidate.as_str());
        if !names_contain(assigned, &cand_c) && !names_contain(foreign, &cand_c) {
            assert(candidate@ == derived_candidate(namespace, raw@, library_name@, presentation_name@, k as nat));
            return Some(candidate);
        }
        if k == u32::MAX {
            return None;
        }
        k = k + 1;
    }
}

/// Whether `out` is the content-pure assignment for a scan: every raw id
/// that occurs once in the scan and belongs to no other library is kept;
/// every other song gets the first free derivation, where "assigned" means
/// the ids given to the songs before it.
pub open spec fn is_content_pure_assignment(
    namespace: u128,
    library: Seq<char>,
    names: Seq<Seq<char>>,
    raws: Seq<Seq<char>>,
    foreign: Seq<Seq<char>>,
    out: Seq<Seq<char>>,
) -> bool {
    &&& out.len() == raws.len()
    &&& forall|i: int|
        0 <= i < out.len() ==> if occurrences(raws, raws[i]) == 1 && !foreign.contains(raws[i]) {
            #[trigger] out[i] == raws[i]
        } else {
            is_first_free_derivation(
                namespace,
                raws[i],
                library,
                names[i],
                out.take(i),
                foreign,
                out[i],
            )
        }
}

/// Whether `out` is the content-pure assignment of the first `out.len()`
/// songs of the scan (see [`is_content_pure_assignment`]).
pub open spec fn is_content_pure_prefix(
    namespace: u128,
    library: Seq<char>,
    names: Seq<Seq<char>>,
    raws: Seq<Seq<char>>,
    foreign: Seq<Seq<char>>,
    out: Seq<Seq<char>>,
) -> bool {
    &&& out.len() <= raws.len()
    &&& forall|i: int|
        0 <= i < out.len() ==> if occurrences(raws, raws[i]) == 1 && !foreign.contains(raws[i]) {
            #[trigger] out[i] == raws[i]
        } else {
            is_first_free_derivation(
                namespace,
                raws[i],
                library,
                names[i],
                out.take(i),
                foreign,
                out[i],
            )
        }
}

/// Whether the scan stops at the song after the assigned prefix `out`: that
/// song must derive its id, and every derivation attempt is taken.
pub open spec fn derivations_exhausted_at(
    namespace: u128,
    library: Seq<char>,
    names: Seq<Seq<char>>,
    raws: Seq<Seq<char>>,
    foreign: Seq<Seq<char>>,
    out: Seq<Seq<char>>,
) -> bool {
    &&& is_content_pure_prefix(namespace, library, names, raws, foreign, out)
    &&& out.len() < raws.len()
    &&& !(occurrences(raws, raws[out.len() as int]) == 1 && !foreign.contains(
        raws[out.len() as int],
    ))
    &&& all_derivations_taken(
        namespace,
        raws[out.len() as int],
        library,
        names[out.len() as int],
        out,
        foreign,
    )
}

fn count_occurrences(raws: &Vec<String>, x: &Vec<char>) -> (n: usize)
    ensures
        n == occurrences(name_views(raws@), x@),
{
    let mut n: usize = 0;
    let mut i: usize = 0;
    while i < raws.len()
        invariant
            i <= raws.len(),
            n == occurrences(name_views(raws@.take(i as int)), x@),
            n <= i,
        decreases raws.len() - i,
    {
        let v = chars_of(raws[i].as_str());
        assert(name_views(raws@.take(i + 1)).drop_last() =~= name_views(raws@.take(i as int)));
        if crate::text::chars_equal(&v, x) {
            n = n + 1;
        }
        i = i + 1;
    }
    assert(raws@.take(raws.len() as int) == raws@);
    n
}

/// Resolves the sync id of every song of an import scan, in order (see
/// [`is_content_pure_assignment`]). `foreign` holds the sync ids other
/// libraries already use. `None` only if some song exhausts every derivation.
pub fn resolve_content_pure_sync_ids(
    namespace: u128,
    library_name: &str,
    names: &Vec<String>,
    raws: &Vec<String>,
    foreign: &Vec<String>,
) -> (r: Option<Vec<String>>)
    requires
        names.len() == raws.len(),
    ensures
        r is Some ==> is_content_pure_assignment(
            namespace,
            library_name@,
            name_views(names@),
            name_views(raws@),
            name_views(foreign@),
            name_views(r->0@),
        ),
        r is None ==> exists|out: Seq<Seq<char>>|
            #[trigger] derivations_exhausted_at(
                namespace,
                library_name@,
                name_views(names@),
                name_views(raws@),
                name_views(foreign@),
                out,
            ),
{
    let mut out: Vec<String> = Vec::new();
    let mut i: usize = 0;
    while i < raws.len()
        invariant
            names.len() == raws.len(),
            i <= raws.len(),
            out.len() == i,
            forall|j: int|
                0 <= j < i ==> if occurrences(name_views(raws@), name_views(raws@)[j]) == 1
                    && !name_views(foreign@).contains(name_views(raws@)[j]) {
                    #[trigger] name_views(out@)[j] == name_views(raws@)[j]
                } else {
                    is_first_free_derivation(
                        namespace,
                        name_views(raws@)[j],
                        library_name@,
                        name_views(names@)[j],
                        name_views(out@).take(j),
                        name_views(foreign@),
                        name_views(out@)[j],
                    )
                },
        decreases raws.len() - i,
    {
        let raw_c = chars_of(raws[i].as_str());
        let unique = count_occurrences(raws, &raw_c) == 1;
        let ghost prev = out@;
        if unique && !names_contain(foreign, &raw_c) {
            out.push(raws[i].clone());
        } else {
            match derive_sync_id(namespace, raws[i].as_str(), library_name, names[i].as_str(), &out, foreign) {
                Some(id) => {
                    out.push(id);
                },
                None => {
                    proof {
                        assert(name_views(raws@)[i as int] == raws@[i as int]@);
                        assert(name_views(names@)[i as int] == names@[i as int]@);
                        assert(derivations_exhausted_at(
                            namespace,
                            library_name@,
                            name_views(names@),
                            name_views(raws@),
                            name_views(foreign@),
                            name_views(out@),
                        ));
                    }
                    return None;
                },
            }
        }
        proof {
            assert(out@.drop_last() == prev);
            assert(name_views(out@).take(i as int) =~= name_views(prev));
            assert forall|j: int|
                0 <= j < i + 1 implies (if occurrences(name_views(raws@), name_views(raws@)[j]) == 1
                && !name_views(foreign@).contains(name_views(raws@)[j]) {
                #[trigger] name_views(out@)[j] == name_views(raws@)[j]
            } else {
                is_first_free_derivation(
                    namespace,
                    name_views(raws@)[j],
                    library_name@,
                    name_views(names@)[j],
                    name_views(out@).take(j),
                    name_views(foreign@),
                    name_views(out@)[j],
                )
            }) by {
                if j < i {
                    assert(name_views(out@)[j] == name_views(prev)[j]);
                    assert(name_views(out@).take(j) =~= name_views(prev).take(j));
                }
            }
        }
        i = i + 1;
    }
    Some(out)
}

/// No song keeps or derives a sync id that another library already uses.
pub proof fn lemma_assignment_avoids_foreign(
    namespace: u128,
    library: Seq<char>,
    names: Seq<Seq<char>>,
    raws: Seq<Seq<char>>,
    foreign: Seq<Seq<char>>,
    out: Seq<Seq<char>>,
    i: int,
)
    requires
        is_content_pure_assignment(namespace, library, names, raws, foreign, out),
        0 <= i < out.len(),
    ensures
        !foreign.contains(out[i]),
{
    if !(occurrences(raws, raws[i]) == 1 && !foreign.contains(raws[i])) {
        let k = choose|k: nat|
            1 <= k <= u32::MAX && out[i] == derived_candidate(namespace, raws[i], library, names[i], k)
                && !out.take(i).contains(out[i]) && !foreign.contains(out[i]) && forall|j: nat|
                1 <= j < k ==> (out.take(i).contains(
                    #[trigger] derived_candidate(namespace, raws[i], library, names[i], j),
                ) || foreign.contains(derived_candidate(namespace, raws[i], library, names[i], j)));
    } else {
        assert(out[i] == raws[i]);
    }
}

} // verus!
