//! Generate 9-digit numeric peer ids that look like RustDesk's.

use vstd::prelude::*;
use vstd::string::StringExecFns;

use rand::rngs::OsRng;
use rand::RngCore;

use crate::codec::{le_capacity, le_value};

verus! {

/// How many ids there are.
pub const SPAN: u64 = 900_000_000;

/// The smallest id.
pub const BASE: u64 = 100_000_000;

/// How many candidates are tried before giving up.
pub const MAX_TRIES: u32 = 16;

/// A decimal digit.
pub open spec fn digit(d: nat) -> char {
    ('0' as u32 + d) as char
}

/// `n` in decimal notation.
pub open spec fn decimal(n: nat) -> Seq<char>
    decreases n,
{
    if n < 10 {
        seq![digit(n)]
    } else {
        decimal(n / 10).push(digit(n % 10))
    }
}

/// The id that eight random bytes stand for.
pub open spec fn id_number(buf: Seq<u8>) -> nat {
    le_value(buf) % SPAN as nat + BASE as nat
}

/// `RngCore::fill_bytes` of `rand::rngs::OsRng`: eight bytes from the operating
/// system. Nothing is known of them. It panics where the operating system has
/// no randomness to give.
#[verifier::external_body]
fn random_bytes() -> (r: [u8; 8]) {
    let mut buf = [0u8; 8];
    OsRng.fill_bytes(&mut buf);
    buf
}

/// A decimal digit as text.
fn digit_text(d: u64) -> (r: &'static str)
    requires
        d < 10,
    ensures
        r@ == seq![digit(d as nat)],
{
    proof {
        reveal_strlit("0");
        reveal_strlit("1");
        reveal_strlit("2");
        reveal_strlit("3");
        reveal_strlit("4");
        reveal_strlit("5");
        reveal_strlit("6");
        reveal_strlit("7");
        reveal_strlit("8");
        reveal_strlit("9");
    }
    let r = match d {
        0 => "0",
        1 => "1",
        2 => "2",
        3 => "3",
        4 => "4",
        5 => "5",
        6 => "6",
        7 => "7",
        8 => "8",
        _ => "9",
    };
    assert(r@ =~= seq![digit(d as nat)]);
    r
}

/// `n` in decimal notation.
fn decimal_text(n: u64) -> (r: String)
    ensures
        r@ == decimal(n as nat),
    decreases n,
{
    let mut s = String::new();
    if n >= 10 {
        s = decimal_text(n / 10);
    }
    s.append(digit_text(n % 10));
    assert(s@ =~= decimal(n as nat));
    s
}

/// The id that eight random bytes stand for.
pub fn id_from_bytes(buf: [u8; 8]) -> (r: String)
    ensures
        r@ == decimal(id_number(buf@)),
{
    let mut n: u64 = 0;
    let mut i: usize = 8;
    assert(buf@.skip(8) =~= Seq::empty());
    proof {
        reveal_with_fuel(le_capacity, 9);
    }
    while i > 0
        invariant
            i <= 8,
            buf@.len() == 8,
            n == le_value(buf@.skip(i as int)),
            n < le_capacity((8 - i) as nat),
            le_capacity(8) == 0x1_0000_0000_0000_0000,
        decreases i,
    {
        i -= 1;
        proof {
            lemma_le_capacity((8 - i) as nat);
            assert(buf@.skip(i as int).skip(1) =~= buf@.skip(i + 1));
        }
        n = buf[i] as u64 + 256 * n;
    }
    assert(buf@.skip(0) =~= buf@);
    decimal_text(n % SPAN + BASE)
}

proof fn lemma_le_capacity(len: nat)
    requires
        1 <= len <= 8,
    ensures
        le_capacity(len) == 256 * le_capacity((len - 1) as nat),
        le_capacity(len) <= le_capacity(8),
    decreases 8 - len,
{
    if len < 8 {
        lemma_le_capacity(len + 1);
    }
}

/// A random id.
pub fn random_id() -> (r: String)
    ensures
        is_id(r@),
{
    let buf = random_bytes();
    let id = id_from_bytes(buf);
    proof {
        let n = id_number(buf@);
        assert(id@ == decimal(n) && BASE <= n < BASE + SPAN);
    }
    id
}

/// Whether `s` is the decimal notation of one of the ids.
pub open spec fn is_id(s: Seq<char>) -> bool {
    exists|n: nat| BASE <= n < BASE + SPAN && s == #[trigger] decimal(n)
}

/// The search for an id that no peer has: the candidate, and how many there
/// were up to it.
#[derive(Debug)]
pub struct FreshSearch {
    tries: u32,
    candidate: String,
}

/// A search as the contracts see it.
pub struct FreshView {
    pub tries: u32,
    pub candidate: Seq<char>,
}

/// How a search goes on.
#[derive(Debug)]
pub enum FreshStep {
    /// No peer has this id.
    Allocated(String),
    /// The candidate is taken; look the next one up.
    TryNext(FreshSearch),
    /// No unique id within `MAX_TRIES` candidates.
    Exhausted,
}

impl View for FreshSearch {
    type V = FreshView;

    closed spec fn view(&self) -> FreshView {
        FreshView { tries: self.tries, candidate: self.candidate@ }
    }
}

/// A step of a search as the contracts see it.
pub enum FreshStepView {
    Allocated(Seq<char>),
    TryNext(FreshView),
    Exhausted,
}

impl View for FreshStep {
    type V = FreshStepView;

    open spec fn view(&self) -> FreshStepView {
        match *self {
            FreshStep::Allocated(id) => FreshStepView::Allocated(id@),
            FreshStep::TryNext(s) => FreshStepView::TryNext(s@),
            FreshStep::Exhausted => FreshStepView::Exhausted,
        }
    }
}

/// How a search goes on once it is known whether a peer has the candidate.
/// `next` is the candidate after it.
pub open spec fn fresh_step(v: FreshView, exists: bool, next: Seq<char>) -> FreshStepView {
    if !exists {
        FreshStepView::Allocated(v.candidate)
    } else if v.tries < MAX_TRIES {
        FreshStepView::TryNext(FreshView { tries: (v.tries + 1) as u32, candidate: next })
    } else {
        FreshStepView::Exhausted
    }
}

impl FreshSearch {
    #[verifier::type_invariant]
    spec fn wf(self) -> bool {
        1 <= self.tries <= MAX_TRIES
    }

    /// A search that begins with `candidate`.
    pub fn starting_with(candidate: String) -> (r: Self)
        ensures
            r@ == (FreshView { tries: 1, candidate: candidate@ }),
    {
        FreshSearch { tries: 1, candidate }
    }

    /// A search that begins with a random id.
    pub fn new() -> (r: Self)
        ensures
            r@.tries == 1,
            is_id(r@.candidate),
    {
        Self::starting_with(random_id())
    }

    /// The id to look up.
    pub fn candidate(&self) -> (r: &str)
        ensures
            r@ == self@.candidate,
    {
        self.candidate.as_str()
    }

    /// Go on, now that it is known whether a peer has the candidate. `next` is
    /// the candidate to try where one has.
    pub fn step(self, exists: bool, next: String) -> (r: FreshStep)
        ensures
            r@ == fresh_step(self@, exists, next@),
    {
        if !exists {
            FreshStep::Allocated(self.candidate)
        } else if self.tries < MAX_TRIES {
            FreshStep::TryNext(FreshSearch { tries: self.tries + 1, candidate: next })
        } else {
            FreshStep::Exhausted
        }
    }
}

/// Go on with a search, now that it is known whether a peer has the candidate.
/// The next candidate, where one is needed, is a random id.
pub fn fresh(search: FreshSearch, exists: bool) -> (r: FreshStep)
    ensures
        exists|next: Seq<char>| is_id(next) && r@ == #[trigger] fresh_step(search@, exists, next),
{
    if exists && search.tries < MAX_TRIES {
        let next = random_id();
        assert(is_id(next@));
        search.step(exists, next)
    } else {
        proof {
            let any = decimal(BASE as nat);
            assert(is_id(any));
            assert(fresh_step(search@, exists, any) == fresh_step(search@, exists, Seq::empty()));
        }
        search.step(exists, String::new())
    }
}

/// The id that a search finds where the ids of `taken` are in use and
/// `candidates` gives the candidates from the first one on. `None` is a search
/// that gave up.
pub open spec fn search_result(
    v: FreshView,
    candidates: spec_fn(int) -> Seq<char>,
    taken: Set<Seq<char>>,
) -> Option<Seq<char>>
    decreases MAX_TRIES - v.tries,
{
    match fresh_step(v, taken.contains(v.candidate), candidates(v.tries + 1)) {
        FreshStepView::Allocated(id) => Some(id),
        FreshStepView::TryNext(next) => search_result(next, candidates, taken),
        FreshStepView::Exhausted => None,
    }
}

/// A search finds the first candidate that is not in use. It gives up exactly
/// when `MAX_TRIES` candidates are all in use, and never looks at more.
pub proof fn law_search_finds_the_first_free_id(
    candidates: spec_fn(int) -> Seq<char>,
    taken: Set<Seq<char>>,
)
    ensures
        match search_result(
            FreshView { tries: 1, candidate: candidates(1) },
            candidates,
            taken,
        ) {
            Some(id) => !taken.contains(id) && exists|i: int|
                1 <= i <= MAX_TRIES && id == #[trigger] candidates(i) && (forall|j: int|
                    1 <= j < i ==> taken.contains(#[trigger] candidates(j))),
            None => forall|i: int|
                1 <= i <= MAX_TRIES ==> taken.contains(#[trigger] candidates(i)),
        },
{
    lemma_search_from(1, candidates, taken);
}

/// A search that has tried the candidates in front of the one at `at`.
proof fn lemma_search_from(at: u32, candidates: spec_fn(int) -> Seq<char>, taken: Set<Seq<char>>)
    requires
        1 <= at <= MAX_TRIES,
        forall|j: int| 1 <= j < at ==> taken.contains(#[trigger] candidates(j)),
    ensures
        match search_result(
            FreshView { tries: at, candidate: candidates(at as int) },
            candidates,
            taken,
        ) {
            Some(id) => !taken.contains(id) && exists|i: int|
                1 <= i <= MAX_TRIES && id == #[trigger] candidates(i) && (forall|j: int|
                    1 <= j < i ==> taken.contains(#[trigger] candidates(j))),
            None => forall|i: int|
                1 <= i <= MAX_TRIES ==> taken.contains(#[trigger] candidates(i)),
        },
    decreases MAX_TRIES - at,
{
    if taken.contains(candidates(at as int)) && at < MAX_TRIES {
        lemma_search_from((at + 1) as u32, candidates, taken);
    }
}

/// Every id has nine decimal digits and does not begin with a zero.
pub proof fn law_ids_have_nine_digits(s: Seq<char>)
    requires
        is_id(s),
    ensures
        s.len() == 9,
        s[0] != '0',
        forall|i: int| 0 <= i < s.len() ==> '0' <= #[trigger] s[i] <= '9',
{
    let n = choose|n: nat| BASE <= n < BASE + SPAN && s == #[trigger] decimal(n);
    reveal_with_fuel(decimal, 10);
    assert(n / 10 / 10 / 10 / 10 / 10 / 10 / 10 / 10 == n / 100_000_000);
}

/// Different numbers have different notations, so no two of the `SPAN` ids
/// look alike.
pub proof fn law_ids_are_distinct(m: nat, n: nat)
    requires
        m != n,
    ensures
        decimal(m) != decimal(n),
    decreases m,
{
    let dm = decimal(m);
    let dn = decimal(n);
    if m >= 10 && n >= 10 {
        if m / 10 != n / 10 {
            law_ids_are_distinct(m / 10, n / 10);
            assert(dm.drop_last() =~= decimal(m / 10));
            assert(dn.drop_last() =~= decimal(n / 10));
        }
        assert(dm.last() == digit(m % 10));
        assert(dn.last() == digit(n % 10));
    } else if m < 10 && n < 10 {
        assert(dm[0] == digit(m));
        assert(dn[0] == digit(n));
    } else {
        lemma_decimal_len(m);
        lemma_decimal_len(n);
    }
}

proof fn lemma_decimal_len(n: nat)
    ensures
        decimal(n).len() >= 1,
        n >= 10 ==> decimal(n).len() >= 2,
    decreases n,
{
    if n >= 10 {
        lemma_decimal_len(n / 10);
    }
}

/// The number that a string of decimal digits stands for, the last digit being
/// the units.
pub open spec fn number(s: Seq<char>) -> int
    decreases s.len(),
{
    if s.len() == 0 {
        0
    } else {
        10 * number(s.drop_last()) + (s.last() as int - '0' as int)
    }
}

/// The decimal notation of a number stands for it, consists of digits, and has
/// no zero in front of it.
pub proof fn law_notation_stands_for_the_number(n: nat)
    ensures
        number(decimal(n)) == n,
        decimal(n).len() > 0,
        forall|i: int| 0 <= i < decimal(n).len() ==> '0' <= #[trigger] decimal(n)[i] <= '9',
        n > 0 ==> decimal(n)[0] != '0',
    decreases n,
{
    let s = decimal(n);
    if n < 10 {
        assert(s.drop_last() =~= Seq::empty());
        assert(number(Seq::<char>::empty()) == 0);
        assert(s.last() as int == 48 + n);
    } else {
        law_notation_stands_for_the_number(n / 10);
        assert(s.drop_last() =~= decimal(n / 10));
        assert(s.last() as int == 48 + n % 10);
        assert forall|i: int| 0 <= i < s.len() implies '0' <= #[trigger] s[i] <= '9' by {
            if i < s.len() - 1 {
                assert(s[i] == decimal(n / 10)[i]);
            }
        }
        assert(s[0] == decimal(n / 10)[0]);
    }
}

/// Ten to the power of `n`.
spec fn power_of_ten(n: nat) -> int
    decreases n,
{
    if n == 0 {
        1
    } else {
        10 * power_of_ten((n - 1) as nat)
    }
}

/// Digits without a leading zero are the notation of the number that they stand
/// for, which has that many digits.
proof fn lemma_digits_are_a_notation(s: Seq<char>)
    requires
        s.len() > 0,
        s[0] != '0',
        forall|i: int| 0 <= i < s.len() ==> '0' <= #[trigger] s[i] <= '9',
    ensures
        power_of_ten((s.len() - 1) as nat) <= number(s) < power_of_ten(s.len()),
        decimal(number(s) as nat) == s,
    decreases s.len(),
{
    let front = s.drop_last();
    let d = s.last() as int - 48;
    assert(s.last() == s[s.len() - 1]);
    if s.len() == 1 {
        assert(front =~= Seq::empty());
        assert(number(front) == 0);
        assert(power_of_ten(0) == 1);
        assert(power_of_ten(1) == 10);
        assert(decimal(number(s) as nat) =~= s);
    } else {
        assert forall|i: int| 0 <= i < front.len() implies '0' <= #[trigger] front[i] <= '9' by {
            assert(front[i] == s[i]);
        }
        assert(front[0] == s[0]);
        lemma_digits_are_a_notation(front);
        lemma_power_positive((front.len() - 1) as nat);
        let n = number(s) as nat;
        assert(n == 10 * number(front) + d && 0 <= d < 10);
        assert(n / 10 == number(front) && n % 10 == d);
        assert(decimal(n) =~= s);
    }
}

proof fn lemma_power_positive(n: nat)
    ensures
        power_of_ten(n) >= 1,
    decreases n,
{
    if n > 0 {
        lemma_power_positive((n - 1) as nat);
    }
}

/// The ids are exactly the numbers of nine digits: nine digits are an id
/// unless the first one is a zero, and nothing else is one.
pub proof fn law_ids_are_the_numbers_of_nine_digits(s: Seq<char>)
    ensures
        is_id(s) <==> s.len() == 9 && s[0] != '0' && (forall|i: int|
            0 <= i < s.len() ==> '0' <= #[trigger] s[i] <= '9'),
{
    if is_id(s) {
        law_ids_have_nine_digits(s);
    }
    if s.len() == 9 && s[0] != '0' && (forall|i: int|
        0 <= i < s.len() ==> '0' <= #[trigger] s[i] <= '9') {
        lemma_digits_are_a_notation(s);
        reveal_with_fuel(power_of_ten, 10);
        let n = number(s) as nat;
        assert(BASE <= n < BASE + SPAN && s == decimal(n));
    }
}

/// The id of eight random bytes: the number that they hold, the first byte
/// lowest, is a multiple of 900,000,000 above the id's distance from
/// 100,000,000, and the id has nine digits.
pub proof fn law_id_of_random_bytes(buf: Seq<u8>)
    requires
        buf.len() == 8,
    ensures
        100_000_000 <= id_number(buf) < 1_000_000_000,
        ({
            let x = buf[0] + 256 * (buf[1] + 256 * (buf[2] + 256 * (buf[3] + 256 * (buf[4] + 256
                * (buf[5] + 256 * (buf[6] + 256 * buf[7]))))));
            (x - (id_number(buf) - 100_000_000)) % 900_000_000 == 0
        }),
{
    let s1 = buf.skip(1);
    let s2 = s1.skip(1);
    let s3 = s2.skip(1);
    let s4 = s3.skip(1);
    let s5 = s4.skip(1);
    let s6 = s5.skip(1);
    let s7 = s6.skip(1);
    assert(le_value(s7.skip(1)) == 0);
    assert(le_value(s7) == buf[7]);
    assert(le_value(s6) == buf[6] + 256 * le_value(s7));
    assert(le_value(s5) == buf[5] + 256 * le_value(s6));
    assert(le_value(s4) == buf[4] + 256 * le_value(s5));
    assert(le_value(s3) == buf[3] + 256 * le_value(s4));
    assert(le_value(s2) == buf[2] + 256 * le_value(s3));
    assert(le_value(s1) == buf[1] + 256 * le_value(s2));
    assert(le_value(buf) == buf[0] + 256 * le_value(s1));
}

/// One step of a search: a candidate that no peer has is the id; one that is
/// taken makes place for the next, up to the sixteenth, and then there is none.
pub proof fn law_search_step(v: FreshView, exists: bool, next: Seq<char>, r: FreshStep)
    ensures
        !exists ==> fresh_step(v, exists, next) == FreshStepView::Allocated(v.candidate),
        exists && v.tries < 16 ==> {
            let step = fresh_step(v, exists, next);
            &&& step is TryNext
            &&& step->TryNext_0.tries == v.tries + 1
            &&& step->TryNext_0.candidate == next
        },
        exists && v.tries >= 16 ==> fresh_step(v, exists, next) is Exhausted,
        r matches FreshStep::Allocated(id) ==> r@ == FreshStepView::Allocated(id@),
        r matches FreshStep::TryNext(s) ==> r@ == FreshStepView::TryNext(s@),
        r is Exhausted ==> r@ is Exhausted,
{
}

/// The id of eight bytes is the text of a number of nine digits, and bytes
/// whose numbers differ by a multiple of 900,000,000, and only those, give the
/// same text.
#[verifier::spinoff_prover]
pub proof fn law_ids_from_bytes(a: [u8; 8], b: [u8; 8], r: String, s: String)
    requires
        call_ensures(id_from_bytes, (a,), r),
        call_ensures(id_from_bytes, (b,), s),
    ensures
        r@.len() == 9,
        100_000_000 <= number(r@) < 1_000_000_000,
        (le_value(a@) - (number(r@) - 100_000_000)) % 900_000_000 == 0,
        r@ == s@ <==> (le_value(a@) - le_value(b@)) % 900_000_000 == 0,
{
    let (x, y) = (le_value(a@) as int, le_value(b@) as int);
    let (m, n) = (id_number(a@), id_number(b@));
    lemma_remainders(x, y);
    assert(m == x % 900_000_000 + 100_000_000);
    assert(n == y % 900_000_000 + 100_000_000);
    law_notation_stands_for_the_number(m);
    assert(BASE <= m < BASE + SPAN && r@ == decimal(m));
    law_ids_have_nine_digits(r@);
    if m != n {
        law_ids_are_distinct(m, n);
    }
}

/// Numbers have the same remainder exactly where they differ by a multiple.
proof fn lemma_remainders(x: int, y: int)
    ensures
        x % 900_000_000 == y % 900_000_000 <==> (x - y) % 900_000_000 == 0,
        (x - x % 900_000_000) % 900_000_000 == 0,
{
}

/// A search looks its first candidate up first. A candidate that no peer has is
/// what it finds; a taken one makes place for the next one.
pub proof fn law_search_takes_a_free_candidate(
    first: String,
    next: String,
    search: FreshSearch,
    asked: &str,
    taken: bool,
    step: FreshStep,
)
    requires
        call_ensures(FreshSearch::starting_with, (first,), search),
        call_ensures(FreshSearch::candidate, (&search,), asked),
        call_ensures(FreshSearch::step, (search, taken, next), step),
    ensures
        asked@ == first@,
        !taken ==> step is Allocated && step->Allocated_0@ == first@,
        taken ==> step is TryNext && step->TryNext_0@.candidate == next@
            && step->TryNext_0@.tries == 2,
{
}

/// A search with random candidates goes the same way: what is free is taken,
/// and every new candidate has nine digits. Sixteen candidates are tried, no
/// more and no fewer.
pub proof fn law_random_search(search: FreshSearch, taken: bool, step: FreshStep)
    requires
        call_ensures(fresh, (search, taken), step),
    ensures
        !taken ==> step is Allocated && step->Allocated_0@ == search@.candidate,
        taken && search@.tries < 16 ==> step is TryNext && step->TryNext_0@.tries == search@.tries
            + 1 && step->TryNext_0@.candidate.len() == 9 && step->TryNext_0@.candidate[0] != '0',
        taken && search@.tries >= 16 ==> step is Exhausted,
{
    let next = choose|next: Seq<char>|
        is_id(next) && step@ == #[trigger] fresh_step(search@, taken, next);
    law_ids_have_nine_digits(next);
    law_search_step(search@, taken, next, step);
}

/// A random id has nine digits, the first of which is not a zero.
pub proof fn law_random_ids(r: String, search: FreshSearch)
    requires
        call_ensures(random_id, (), r),
        call_ensures(FreshSearch::new, (), search),
    ensures
        r@.len() == 9,
        100_000_000 <= number(r@) < 1_000_000_000,
        search@.tries == 1,
        search@.candidate.len() == 9,
        100_000_000 <= number(search@.candidate) < 1_000_000_000,
{
    lemma_id_number(r@);
    lemma_id_number(search@.candidate);
}

proof fn lemma_id_number(s: Seq<char>)
    requires
        is_id(s),
    ensures
        s.len() == 9,
        100_000_000 <= number(s) < 1_000_000_000,
{
    law_ids_have_nine_digits(s);
    let n = choose|n: nat| BASE <= n < BASE + SPAN && s == #[trigger] decimal(n);
    law_notation_stands_for_the_number(n);
}

} // verus!
