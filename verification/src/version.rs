//! Release versions: reading them and deciding whether one is newer, by
//! semantic-versioning precedence.

use vstd::prelude::*;
use crate::text::{str_equals, views};
use vstd::string::StrSliceExecFns;

verus! {

/// Whether a character is an ASCII digit.
pub open spec fn is_digit_char(c: char) -> bool {
    48 <= (c as u32) && (c as u32) <= 57
}

/// The value of an ASCII digit.
pub open spec fn digit_value(c: char) -> nat {
    ((c as u32) - 48) as nat
}

/// Reading a version text from left to right: the numbers of the finished
/// dot-separated parts, the value and length of the part being read, and
/// whether everything read so far is well formed (digits only, no empty
/// part, every number within `u64`).
pub open spec fn version_scan(s: Seq<char>) -> (Seq<nat>, nat, nat, bool)
    decreases s.len(),
{
    if s.len() == 0 {
        (seq![], 0, 0, true)
    } else {
        let (done, cur, len, ok) = version_scan(s.drop_last());
        let c = s.last();
        if c == '.' {
            (done.push(cur), 0, 0, ok && len > 0)
        } else if is_digit_char(c) {
            let v = cur * 10 + digit_value(c);
            (done, v, len + 1, ok && v <= u64::MAX)
        } else {
            (done, cur, len + 1, false)
        }
    }
}

/// The numbers of a version written as dot-separated decimal parts
/// (`1.10.2` gives 1, 10, 2), or `None` when the text is not of that form.
pub open spec fn version_numbers(s: Seq<char>) -> Option<Seq<nat>> {
    let (done, cur, len, ok) = version_scan(s);
    if ok && len > 0 {
        Some(done.push(cur))
    } else {
        None
    }
}

/// A sequence without its first element (empty stays empty).
pub open spec fn rest_of(a: Seq<nat>) -> Seq<nat> {
    if a.len() > 0 {
        a.drop_first()
    } else {
        a
    }
}

/// Whether version numbers `a` are strictly greater than `b`, compared part
/// by part from the left, a missing part counting as 0 (so `1.0` equals `1`).
pub open spec fn numbers_greater(a: Seq<nat>, b: Seq<nat>) -> bool
    decreases a.len() + b.len(),
{
    if a.len() == 0 && b.len() == 0 {
        false
    } else {
        let x: nat = if a.len() > 0 {
            a[0]
        } else {
            0
        };
        let y: nat = if b.len() > 0 {
            b[0]
        } else {
            0
        };
        if x != y {
            x > y
        } else {
            numbers_greater(rest_of(a), rest_of(b))
        }
    }
}

/// The index of the first `c` in `s`, or the length of `s` when there is none.
pub open spec fn first_index_of(s: Seq<char>, c: char) -> nat
    decreases s.len(),
{
    if s.len() == 0 {
        0
    } else if s[0] == c {
        0
    } else {
        1 + first_index_of(s.drop_first(), c)
    }
}

/// The dot-separated fields of a text (an empty text is one empty field).
pub open spec fn dot_fields(s: Seq<char>) -> Seq<Seq<char>>
    decreases s.len(),
{
    if s.len() == 0 {
        seq![seq![]]
    } else {
        let p = dot_fields(s.drop_last());
        if s.last() == '.' {
            p.push(seq![])
        } else {
            p.update(p.len() - 1, p.last().push(s.last()))
        }
    }
}

/// Whether a character may appear in a pre-release identifier: ASCII
/// letters, digits and `-`.
pub open spec fn is_ident_char(c: char) -> bool {
    let u = c as u32;
    ||| (48 <= u && u <= 57)
    ||| (65 <= u && u <= 90)
    ||| (97 <= u && u <= 122)
    ||| u == 45
}

/// Whether a pre-release identifier is well formed: not empty, made of
/// identifier characters.
pub open spec fn valid_ident(id: Seq<char>) -> bool {
    id.len() > 0 && forall|i: int| 0 <= i < id.len() ==> is_ident_char(#[trigger] id[i])
}

/// A semantic version read from text: `NUMBERS[-PRE][+BUILD]`. The numbers
/// are dot-separated decimal parts (see `version_numbers`); the pre-release
/// is a list of dot-separated identifiers; the build part is ignored.
/// `None` when the text is not of that form.
pub open spec fn semver_parts(s: Seq<char>) -> Option<(Seq<nat>, Option<Seq<Seq<char>>>)> {
    let main = s.take(first_index_of(s, '+') as int);
    let k = first_index_of(main, '-') as int;
    match version_numbers(main.take(k)) {
        None => None,
        Some(nums) => if k < main.len() {
            let ids = dot_fields(main.skip(k + 1));
            if forall|i: int| 0 <= i < ids.len() ==> valid_ident(#[trigger] ids[i]) {
                Some((nums, Some(ids)))
            } else {
                None
            }
        } else {
            Some((nums, None))
        },
    }
}

/// Whether text `a` comes before `b` in ASCII order.
pub open spec fn text_less(a: Seq<char>, b: Seq<char>) -> bool
    decreases a.len(),
{
    if a.len() == 0 {
        b.len() > 0
    } else if b.len() == 0 {
        false
    } else if a[0] != b[0] {
        (a[0] as u32) < (b[0] as u32)
    } else {
        text_less(a.drop_first(), b.drop_first())
    }
}

/// Whether pre-release identifier `a` has lower precedence than `b`: numeric
/// identifiers (digits only, within `u64`) compare as numbers and come before
/// the others, which compare in ASCII order.
pub open spec fn ident_less(a: Seq<char>, b: Seq<char>) -> bool {
    match (version_numbers(a), version_numbers(b)) {
        (Some(x), Some(y)) => x[0] < y[0],
        (Some(_), None) => true,
        (None, Some(_)) => false,
        (None, None) => text_less(a, b),
    }
}

/// Whether pre-release `a` has lower precedence than `b`: the first
/// differing identifier decides; when one list runs out first it is lower.
pub open spec fn fields_less(a: Seq<Seq<char>>, b: Seq<Seq<char>>) -> bool
    decreases a.len(),
{
    if a.len() == 0 {
        b.len() > 0
    } else if b.len() == 0 {
        false
    } else if a[0] == b[0] {
        fields_less(a.drop_first(), b.drop_first())
    } else {
        ident_less(a[0], b[0])
    }
}

/// Whether release `latest` is newer than installed `current` by semantic
/// versioning precedence: greater numbers win (a missing part counts as 0);
/// with equal numbers a release outranks a pre-release and two pre-releases
/// compare by `fields_less`; build parts do not count. Texts that are not
/// versions are never newer.
pub open spec fn version_newer(latest: Seq<char>, current: Seq<char>) -> bool {
    match (semver_parts(latest), semver_parts(current)) {
        (Some((ln, lp)), Some((cn, cp))) => if numbers_greater(ln, cn) {
            true
        } else if numbers_greater(cn, ln) {
            false
        } else {
            match (lp, cp) {
                (None, None) => false,
                (None, Some(_)) => true,
                (Some(_), None) => false,
                (Some(a), Some(b)) => fields_less(b, a),
            }
        },
        _ => false,
    }
}

/// The numbers of a `u64` sequence.
pub open spec fn as_nats(v: Seq<u64>) -> Seq<nat> {
    v.map_values(|x: u64| x as nat)
}

/// Once a version text is ill formed, no continuation makes it well formed.
proof fn lemma_scan_stays_broken(s: Seq<char>, i: int)
    requires
        0 <= i <= s.len(),
        !version_scan(s.subrange(0, i)).3,
    ensures
        !version_scan(s).3,
    decreases s.len() - i,
{
    if i == s.len() {
        assert(s.subrange(0, i) =~= s);
    } else {
        assert(s.subrange(0, i + 1).drop_last() =~= s.subrange(0, i));
        lemma_scan_stays_broken(s, i + 1);
    }
}

/// The numbers of a version text (see `version_numbers`).
pub fn parse_version(s: &str) -> (r: Option<Vec<u64>>)
    ensures
        match r {
            Some(v) => version_numbers(s@) == Some(as_nats(v@)),
            None => version_numbers(s@) is None,
        },
{
    let n = s.unicode_len();
    let mut done: Vec<u64> = Vec::new();
    let mut cur: u64 = 0;
    let mut len: usize = 0;
    let mut i: usize = 0;
    while i < n
        invariant
            n == s@.len(),
            i <= n,
            len <= i,
            ({
                let st = version_scan(s@.subrange(0, i as int));
                &&& st.3
                &&& as_nats(done@) == st.0
                &&& cur == st.1
                &&& len == st.2
            }),
        decreases n - i,
    {
        let c = s.get_char(i);
        let u = c as u32;
        proof {
            assert(s@.subrange(0, i + 1).drop_last() =~= s@.subrange(0, i as int));
            assert(s@.subrange(0, i + 1).last() == c);
        }
        if c == '.' {
            if len == 0 {
                proof {
                    lemma_scan_stays_broken(s@, i + 1);
                }
                return None;
            }
            done.push(cur);
            proof {
                assert(as_nats(done@) =~= as_nats(done@.drop_last()).push(cur as nat));
            }
            cur = 0;
            len = 0;
        } else if 48 <= u && u <= 57 {
            let d = (u - 48) as u64;
            match cur.checked_mul(10) {
                Some(m) => match m.checked_add(d) {
                    Some(v) => {
                        cur = v;
                        len = len + 1;
                    },
                    None => {
                        proof {
                            lemma_scan_stays_broken(s@, i + 1);
                        }
                        return None;
                    },
                },
                None => {
                    proof {
                        lemma_scan_stays_broken(s@, i + 1);
                    }
                    return None;
                },
            }
        } else {
            proof {
                lemma_scan_stays_broken(s@, i + 1);
            }
            return None;
        }
        i = i + 1;
    }
    proof {
        assert(s@.subrange(0, n as int) =~= s@);
    }
    if len == 0 {
        return None;
    }
    done.push(cur);
    proof {
        assert(as_nats(done@) =~= as_nats(done@.drop_last()).push(cur as nat));
    }
    Some(done)
}

/// Whether version numbers `a` are strictly greater than `b` (see `numbers_greater`).
pub fn numbers_greater_exec(a: &Vec<u64>, b: &Vec<u64>) -> (r: bool)
    ensures
        r == numbers_greater(as_nats(a@), as_nats(b@)),
{
    let la = a.len();
    let lb = b.len();
    let n = if la > lb { la } else { lb };
    let mut i: usize = 0;
    proof {
        assert(as_nats(a@).subrange(0, la as int) =~= as_nats(a@));
        assert(as_nats(b@).subrange(0, lb as int) =~= as_nats(b@));
        assert(as_nats(a@).subrange(la as int, la as int) =~= as_nats(a@).subrange(0, la as int) || la > 0);
        assert(as_nats(b@).subrange(lb as int, lb as int) =~= as_nats(b@).subrange(0, lb as int) || lb > 0);
    }
    while i < n
        invariant
            la == a@.len(),
            lb == b@.len(),
            n == if la > lb { la } else { lb },
            i <= n,
            numbers_greater(as_nats(a@), as_nats(b@)) == numbers_greater(
                as_nats(a@).subrange(if i < la { i as int } else { la as int }, la as int),
                as_nats(b@).subrange(if i < lb { i as int } else { lb as int }, lb as int),
            ),
        decreases n - i,
    {
        let x: u64 = if i < la { a[i] } else { 0 };
        let y: u64 = if i < lb { b[i] } else { 0 };
        let ghost sa = as_nats(a@).subrange(if i < la { i as int } else { la as int }, la as int);
        let ghost sb = as_nats(b@).subrange(if i < lb { i as int } else { lb as int }, lb as int);
        proof {
            let ni = i + 1;
            assert(rest_of(sa) =~= as_nats(a@).subrange(if ni < la { ni as int } else { la as int }, la as int));
            assert(rest_of(sb) =~= as_nats(b@).subrange(if ni < lb { ni as int } else { lb as int }, lb as int));
        }
        if x != y {
            return x > y;
        }
        i = i + 1;
    }
    proof {
        let ea = as_nats(a@).subrange(la as int, la as int);
        let eb = as_nats(b@).subrange(lb as int, lb as int);
        assert(ea.len() == 0 && eb.len() == 0);
    }
    false
}

proof fn lemma_first_index(s: Seq<char>, c: char, k: int)
    requires
        0 <= k <= s.len(),
        forall|j: int| 0 <= j < k ==> s[j] != c,
        k == s.len() || s[k] == c,
    ensures
        first_index_of(s, c) == k,
    decreases k,
{
    if k > 0 {
        assert forall|j: int| 0 <= j < k - 1 implies s.drop_first()[j] != c by {
            assert(s.drop_first()[j] == s[j + 1]);
        }
        lemma_first_index(s.drop_first(), c, k - 1);
    }
}

/// The index of the first `c` in `s`, or its length when there is none.
pub fn find_char(s: &str, c: char) -> (r: usize)
    ensures
        r == first_index_of(s@, c),
        r <= s@.len(),
{
    let n = s.unicode_len();
    let mut k: usize = 0;
    while k < n && s.get_char(k) != c
        invariant
            n == s@.len(),
            k <= n,
            forall|j: int| 0 <= j < k ==> s@[j] != c,
        decreases n - k,
    {
        k = k + 1;
    }
    proof {
        lemma_first_index(s@, c, k as int);
    }
    k
}

/// The dot-separated fields of a text (see `dot_fields`).
pub fn split_fields(s: &str) -> (r: Vec<String>)
    ensures
        views(r@) == dot_fields(s@),
{
    let n = s.unicode_len();
    let mut fields: Vec<String> = Vec::new();
    let mut start: usize = 0;
    let mut i: usize = 0;
    assert(s@.subrange(0, 0) =~= Seq::<char>::empty());
    while i < n
        invariant
            n == s@.len(),
            start <= i <= n,
            dot_fields(s@.subrange(0, i as int)) == views(fields@).push(
                s@.subrange(start as int, i as int),
            ),
        decreases n - i,
    {
        let c = s.get_char(i);
        proof {
            assert(s@.subrange(0, i + 1).drop_last() =~= s@.subrange(0, i as int));
            assert(s@.subrange(0, i + 1).last() == c);
        }
        if c == '.' {
            let f = String::from_str(s.substring_char(start, i));
            let ghost before = fields@;
            fields.push(f);
            proof {
                assert(views(fields@) =~= views(before).push(f@));
                assert(s@.subrange(i + 1, i + 1) =~= Seq::<char>::empty());
            }
            start = i + 1;
        } else {
            proof {
                assert(s@.subrange(start as int, i + 1) =~= s@.subrange(start as int, i as int).push(c));
            }
        }
        i = i + 1;
    }
    let f = String::from_str(s.substring_char(start, n));
    let ghost before = fields@;
    fields.push(f);
    proof {
        assert(views(fields@) =~= views(before).push(f@));
        assert(s@.subrange(0, n as int) =~= s@);
    }
    fields
}

/// Whether a pre-release identifier is well formed (see `valid_ident`).
pub fn is_valid_ident(id: &str) -> (r: bool)
    ensures
        r == valid_ident(id@),
{
    let n = id.unicode_len();
    if n == 0 {
        return false;
    }
    let mut i: usize = 0;
    while i < n
        invariant
            n == id@.len(),
            i <= n,
            forall|j: int| 0 <= j < i ==> is_ident_char(#[trigger] id@[j]),
        decreases n - i,
    {
        let u = id.get_char(i) as u32;
        if !((48 <= u && u <= 57) || (65 <= u && u <= 90) || (97 <= u && u <= 122) || u == 45) {
            return false;
        }
        i = i + 1;
    }
    true
}

/// Reads a semantic version (see `semver_parts`): its numbers and, when it
/// has one, its pre-release identifiers.
pub fn parse_semver(s: &str) -> (r: Option<(Vec<u64>, Option<Vec<String>>)>)
    ensures
        match (r, semver_parts(s@)) {
            (Some((v, p)), Some((nums, pre))) => as_nats(v@) == nums && match (p, pre) {
                (Some(ids), Some(fs)) => views(ids@) == fs,
                (None, None) => true,
                _ => false,
            },
            (None, None) => true,
            _ => false,
        },
{
    let kb = find_char(s, '+');
    let main = s.substring_char(0, kb);
    let kp = find_char(main, '-');
    let core = main.substring_char(0, kp);
    let m = main.unicode_len();
    proof {
        assert(main@ =~= s@.take(first_index_of(s@, '+') as int));
        assert(core@ =~= main@.take(kp as int));
    }
    let nums = match parse_version(core) {
        None => return None,
        Some(v) => v,
    };
    if kp < m {
        let pre = main.substring_char(kp + 1, m);
        proof {
            assert(pre@ =~= main@.skip(kp + 1));
        }
        let ids = split_fields(pre);
        let mut i: usize = 0;
        while i < ids.len()
            invariant
                i <= ids@.len(),
                pre@ == main@.skip(kp + 1),
                main@ == s@.take(first_index_of(s@, '+') as int),
                kp == first_index_of(main@, '-'),
                kp < main@.len(),
                version_numbers(main@.take(kp as int)) == Some(as_nats(nums@)),
                views(ids@) == dot_fields(pre@),
                forall|j: int| 0 <= j < i ==> valid_ident(#[trigger] views(ids@)[j]),
            decreases ids@.len() - i,
        {
            if !is_valid_ident(ids[i].as_str()) {
                proof {
                    assert(views(ids@)[i as int] == ids@[i as int]@);
                    let fs = dot_fields(main@.skip(kp + 1));
                    assert(fs == views(ids@));
                    assert(!valid_ident(fs[i as int]));
                }
                return None;
            }
            i = i + 1;
        }
        Some((nums, Some(ids)))
    } else {
        Some((nums, None))
    }
}

/// Whether text `a` comes before `b` in ASCII order (see `text_less`).
pub fn text_less_exec(a: &str, b: &str) -> (r: bool)
    ensures
        r == text_less(a@, b@),
{
    let la = a.unicode_len();
    let lb = b.unicode_len();
    let mut i: usize = 0;
    assert(a@.skip(0) =~= a@);
    assert(b@.skip(0) =~= b@);
    while i < la && i < lb
        invariant
            la == a@.len(),
            lb == b@.len(),
            i <= la,
            i <= lb,
            text_less(a@, b@) == text_less(a@.skip(i as int), b@.skip(i as int)),
        decreases la - i,
    {
        let x = a.get_char(i);
        let y = b.get_char(i);
        proof {
            assert(a@.skip(i as int).drop_first() =~= a@.skip(i + 1));
            assert(b@.skip(i as int).drop_first() =~= b@.skip(i + 1));
        }
        if x != y {
            return (x as u32) < (y as u32);
        }
        i = i + 1;
    }
    lb > i
}

/// Whether pre-release identifier `a` has lower precedence than `b` (see `ident_less`).
pub fn ident_less_exec(a: &str, b: &str) -> (r: bool)
    ensures
        r == ident_less(a@, b@),
{
    match (parse_version(a), parse_version(b)) {
        (Some(x), Some(y)) => {
            proof {
                assert(as_nats(x@).len() > 0 && as_nats(y@).len() > 0) by {
                    lemma_numbers_not_empty(a@);
                    lemma_numbers_not_empty(b@);
                }
            }
            x[0] < y[0]
        },
        (Some(_), None) => true,
        (None, Some(_)) => false,
        (None, None) => text_less_exec(a, b),
    }
}

proof fn lemma_numbers_not_empty(s: Seq<char>)
    ensures
        version_numbers(s) matches Some(v) ==> v.len() > 0,
{
}

/// Whether pre-release `a` has lower precedence than `b` (see `fields_less`).
pub fn fields_less_exec(a: &Vec<String>, b: &Vec<String>) -> (r: bool)
    ensures
        r == fields_less(views(a@), views(b@)),
{
    let la = a.len();
    let lb = b.len();
    let mut i: usize = 0;
    assert(views(a@).skip(0) =~= views(a@));
    assert(views(b@).skip(0) =~= views(b@));
    while i < la && i < lb
        invariant
            la == a@.len(),
            lb == b@.len(),
            i <= la,
            i <= lb,
            fields_less(views(a@), views(b@)) == fields_less(
                views(a@).skip(i as int),
                views(b@).skip(i as int),
            ),
        decreases la - i,
    {
        proof {
            assert(views(a@).skip(i as int).drop_first() =~= views(a@).skip(i + 1));
            assert(views(b@).skip(i as int).drop_first() =~= views(b@).skip(i + 1));
            assert(views(a@).skip(i as int)[0] == a@[i as int]@);
            assert(views(b@).skip(i as int)[0] == b@[i as int]@);
        }
        if !str_equals(a[i].as_str(), b[i].as_str()) {
            return ident_less_exec(a[i].as_str(), b[i].as_str());
        }
        i = i + 1;
    }
    lb > i
}

/// Whether release `latest` is newer than installed `current` (see `version_newer`).
pub fn is_newer_version(latest: &str, current: &str) -> (r: bool)
    ensures
        r == version_newer(latest@, current@),
{
    match (parse_semver(latest), parse_semver(current)) {
        (Some((ln, lp)), Some((cn, cp))) => {
            if numbers_greater_exec(&ln, &cn) {
                true
            } else if numbers_greater_exec(&cn, &ln) {
                false
            } else {
                match (lp, cp) {
                    (None, None) => false,
                    (None, Some(_)) => true,
                    (Some(_), None) => false,
                    (Some(a), Some(b)) => fields_less_exec(&b, &a),
                }
            }
        },
        _ => false,
    }
}

proof fn lemma_numbers_greater_asymmetric(a: Seq<nat>, b: Seq<nat>)
    ensures
        !(numbers_greater(a, b) && numbers_greater(b, a)),
    decreases a.len() + b.len(),
{
    if !(a.len() == 0 && b.len() == 0) {
        lemma_numbers_greater_asymmetric(rest_of(a), rest_of(b));
    }
}

proof fn lemma_text_less_asymmetric(a: Seq<char>, b: Seq<char>)
    ensures
        !(text_less(a, b) && text_less(b, a)),
    decreases a.len(),
{
    if a.len() > 0 && b.len() > 0 && a[0] == b[0] {
        lemma_text_less_asymmetric(a.drop_first(), b.drop_first());
    }
}

proof fn lemma_fields_less_asymmetric(a: Seq<Seq<char>>, b: Seq<Seq<char>>)
    ensures
        !(fields_less(a, b) && fields_less(b, a)),
    decreases a.len(),
{
    if a.len() > 0 && b.len() > 0 {
        if a[0] == b[0] {
            lemma_fields_less_asymmetric(a.drop_first(), b.drop_first());
        } else {
            lemma_text_less_asymmetric(a[0], b[0]);
        }
    }
}

/// The update answer orders versions strictly: no version is newer than
/// itself, and of two versions at most one is newer than the other.
pub proof fn lemma_newer_is_strict(a: Seq<char>, b: Seq<char>)
    ensures
        !version_newer(a, a),
        !(version_newer(a, b) && version_newer(b, a)),
{
    if let (Some((an, ap)), Some((bn, bp))) = (semver_parts(a), semver_parts(b)) {
        lemma_numbers_greater_asymmetric(an, bn);
        lemma_numbers_greater_asymmetric(an, an);
        if let (Some(x), Some(y)) = (ap, bp) {
            lemma_fields_less_asymmetric(x, y);
        }
        if let Some(x) = ap {
            lemma_fields_less_asymmetric(x, x);
        }
    } else if let Some((an, ap)) = semver_parts(a) {
        lemma_numbers_greater_asymmetric(an, an);
        if let Some(x) = ap {
            lemma_fields_less_asymmetric(x, x);
        }
    }
}

} // verus!
