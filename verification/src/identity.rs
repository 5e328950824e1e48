//! The identity locator's pure core: finding the leftmost run of seventeen
//! digits in a text, and picking the first candidate file that yields one.
//! The search is over the whole raw text, not anchored to any field of the
//! file's format: a stray seventeen-digit number anywhere would be returned.

use vstd::prelude::*;

verus! {

/// An ASCII decimal digit.
pub open spec fn is_digit(c: char) -> bool {
    48 <= c as u32 && c as u32 <= 57
}

/// Seventeen consecutive digits start at position `i` of `s`.
pub open spec fn digits_at(s: Seq<char>, i: int) -> bool {
    0 <= i && i + 17 <= s.len() && (forall|j: int| i <= j < i + 17 ==> is_digit(#[trigger] s[j]))
}

/// Some seventeen-digit run occurs in `s`.
pub open spec fn has_id(s: Seq<char>) -> bool {
    exists|i: int| digits_at(s, i)
}

/// `id` is the leftmost seventeen-digit run of `s`.
pub open spec fn first_id_of(s: Seq<char>, id: Seq<char>) -> bool {
    exists|i: int|
        #[trigger] digits_at(s, i) && id == s.subrange(i, i + 17) && (forall|j: int|
            0 <= j < i ==> !digits_at(s, j))
}

/// Runtime test for `is_digit`.
fn is_digit_char(c: char) -> (r: bool)
    ensures
        r == is_digit(c),
{
    let v = c as u32;
    48 <= v && v <= 57
}

/// Whether seventeen digits start at position `i` of `text`.
fn digits_run_at(text: &str, i: usize) -> (r: bool)
    requires
        i + 17 <= text@.len() <= usize::MAX,
    ensures
        r == digits_at(text@, i as int),
{
    let mut j: usize = 0;
    while j < 17
        invariant
            j <= 17,
            i + 17 <= text@.len() <= usize::MAX,
            forall|k: int| 0 <= k < j ==> is_digit(#[trigger] text@[i + k]),
        decreases 17 - j,
    {
        if !is_digit_char(text.get_char(i + j)) {
            assert(!digits_at(text@, i as int));
            return false;
        }
        j = j + 1;
    }
    assert forall|j2: int| i <= j2 < i + 17 implies is_digit(#[trigger] text@[j2]) by {
        assert(is_digit(text@[i + (j2 - i)]));
    }
    true
}

/// The leftmost seventeen-digit run of `text`, when there is one: what the
/// locator reports from one candidate file's text. A text without such a run
/// yields nothing, never a shorter or partial match.
pub fn find_steam_id(text: &str) -> (r: Option<String>)
    ensures
        match r {
            Some(id) => first_id_of(text@, id@),
            None => !has_id(text@),
        },
{
    let n = text.unicode_len();
    if n < 17 {
        return None;
    }
    let mut i: usize = 0;
    while i <= n - 17
        invariant
            17 <= n == text@.len(),
            i <= n - 17 + 1,
            forall|j: int| 0 <= j < i ==> !digits_at(text@, j),
        decreases n - i,
    {
        if digits_run_at(text, i) {
            let id = text.substring_char(i, i + 17).to_owned();
            assert(digits_at(text@, i as int));
            return Some(id);
        }
        i = i + 1;
    }
    assert forall|j: int| !digits_at(text@, j) by {
        if digits_at(text@, j) {
            assert(0 <= j && j + 17 <= n);
        }
    }
    None
}

/// What one candidate contributes: nothing when its path did not exist, else
/// whatever its text holds.
pub open spec fn cand_has_id(c: Option<String>) -> bool {
    match c {
        Some(t) => has_id(t@),
        None => false,
    }
}

/// The candidate exists and `id` is the leftmost seventeen-digit run of its text.
pub open spec fn cand_yields(c: Option<String>, id: Seq<char>) -> bool {
    match c {
        Some(t) => first_id_of(t@, id),
        None => false,
    }
}

/// The locator's contract: success is owed exactly when some existing
/// candidate holds a seventeen-digit run, and the result is the leftmost run
/// of the first such candidate; otherwise the fixed "not found" message.
pub open spec fn locate_post(cands: Seq<Option<String>>, r: Result<String, String>) -> bool {
    match r {
        Ok(id) => exists|k: int|
            0 <= k < cands.len() && #[trigger] cand_yields(cands[k], id@) && (forall|m: int|
                0 <= m < k ==> !cand_has_id(cands[m])),
        Err(e) => (forall|k: int| 0 <= k < cands.len() ==> !cand_has_id(cands[k])) && e@
            == "Steam ID not found"@,
    }
}

/// Searches the candidate texts in order — `None` stands for a candidate
/// path that did not exist, and is passed over without error — and returns
/// the first identity found.
pub fn locate_identity(candidates: &Vec<Option<String>>) -> (r: Result<String, String>)
    ensures
        locate_post(candidates@, r),
{
    let mut k: usize = 0;
    while k < candidates.len()
        invariant
            k <= candidates@.len(),
            forall|m: int| 0 <= m < k ==> !cand_has_id(candidates@[m]),
        decreases candidates@.len() - k,
    {
        match &candidates[k] {
            Some(text) => {
                match find_steam_id(text.as_str()) {
                    Some(id) => {
                        proof {
                            let cs = candidates@;
                            assert(cand_yields(cs[k as int], id@));
                            let rr = Result::<String, String>::Ok(id);
                            assert(cand_yields(cs[k as int], rr->Ok_0@));
                            assert(locate_post(cs, rr));
                        }
                        return Ok(id);
                    },
                    None => {
                        assert(!cand_has_id(candidates@[k as int]));
                    },
                }
            },
            None => {
                assert(!cand_has_id(candidates@[k as int]));
            },
        }
        k = k + 1;
    }
    Err(String::from_str("Steam ID not found"))
}

/// The leftmost seventeen-digit run of a text is one value: two results that
/// both stand leftmost are equal.
pub proof fn lemma_first_id_unique(s: Seq<char>, a: Seq<char>, b: Seq<char>)
    requires
        first_id_of(s, a),
        first_id_of(s, b),
    ensures
        a == b,
{
    let i = choose|i: int|
        #[trigger] digits_at(s, i) && a == s.subrange(i, i + 17) && (forall|j: int|
            0 <= j < i ==> !digits_at(s, j));
    let i2 = choose|i2: int|
        #[trigger] digits_at(s, i2) && b == s.subrange(i2, i2 + 17) && (forall|j: int|
            0 <= j < i2 ==> !digits_at(s, j));
    assert(i == i2);
}

/// Law: with two candidates of which only the second exists, any result the
/// locator's contract allows is the match from the second candidate — the
/// first being absent cannot produce an error or steal the match.
pub proof fn lemma_second_candidate_wins(
    cands: Seq<Option<String>>,
    t: String,
    idv: Seq<char>,
    r: Result<String, String>,
)
    requires
        cands.len() == 2,
        cands[0] is None,
        cands[1] == Some(t),
        first_id_of(t@, idv),
        locate_post(cands, r),
    ensures
        r matches Ok(id) && id@ == idv,
{
    assert(cand_has_id(cands[1])) by {
        let i = choose|i: int|
            #[trigger] digits_at(t@, i) && idv == t@.subrange(i, i + 17) && (forall|j: int|
                0 <= j < i ==> !digits_at(t@, j));
        assert(digits_at(t@, i));
    }
    match r {
        Ok(id) => {
            let k = choose|k: int|
                0 <= k < cands.len() && #[trigger] cand_yields(cands[k], id@) && (forall|m: int|
                    0 <= m < k ==> !cand_has_id(cands[m]));
            assert(k == 1);
            lemma_first_id_unique(t@, id@, idv);
        },
        Err(e) => {
            assert(!cand_has_id(cands[1]));
        },
    }
}

} // verus!
