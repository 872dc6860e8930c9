//! Helpers of the front end: validation of the source text, joining the
//! outcomes of independent steps, and what error reports are made of.

use crate::error::Error;
use crate::text::views;
use vstd::prelude::*;
use vstd::utf8::{encode_scalar, encode_utf8};

verus! {

/// What makes a codepoint unfit for a source text.
#[derive(Clone, Copy, Debug, PartialEq, Eq, Structural)]
pub enum Fault {
    BidirectionalOverride,
    Deprecated,
    ControlCode,
}

/// The codepoints that change the direction of text.
pub open spec fn is_bidirectional_override(c: char) -> bool {
    0x202A <= c as u32 <= 0x202E || 0x2066 <= c as u32 <= 0x2069
}

/// The codepoints that Unicode deprecates or discourages.
pub open spec fn is_deprecated(c: char) -> bool {
    let v = c as u32;
    v == 0x149 || v == 0x673 || v == 0xF77 || v == 0xF79 || v == 0x17A3 || v == 0x17A4 || v
        == 0x17B4 || v == 0x17B5
}

/// The control codes: the codepoints of the general category Cc.
pub open spec fn is_control(c: char) -> bool {
    c as u32 <= 0x1F || 0x7F <= c as u32 <= 0x9F
}

/// What is wrong with a codepoint, if anything: line feed, carriage return
/// and tab are always fit.
pub open spec fn fault_of(c: char) -> Option<Fault> {
    if c == '\n' || c == '\r' || c == '\t' {
        None
    } else if is_bidirectional_override(c) {
        Some(Fault::BidirectionalOverride)
    } else if is_deprecated(c) {
        Some(Fault::Deprecated)
    } else if is_control(c) {
        Some(Fault::ControlCode)
    } else {
        None
    }
}

/// How many bytes the first `i` characters of `s` take in UTF-8.
pub open spec fn byte_offset(s: Seq<char>, i: int) -> nat {
    encode_utf8(s.take(i)).len()
}

/// The error for a fault at a byte offset.
pub open spec fn fault_error(fault: Fault, position: usize) -> Error {
    match fault {
        Fault::BidirectionalOverride => Error::BidirectionalOverrideCodepoint { position },
        Fault::Deprecated => Error::DeprecatedCodepoint { position },
        Fault::ControlCode => Error::ControlCode { position },
    }
}

/// `char::is_control` of std: whether the codepoint has the general category
/// Cc. Unicode never changes that category: it holds the codepoints up to
/// U+001F and those from U+007F to U+009F.
#[verifier::external_body]
fn char_is_control(c: char) -> (b: bool)
    ensures
        b == is_control(c),
{
    c.is_control()
}

/// What is wrong with a codepoint, if anything.
pub fn check_codepoint(c: char) -> (fault: Option<Fault>)
    ensures
        fault == fault_of(c),
{
    let v = c as u32;
    if c == '\n' || c == '\r' || c == '\t' {
        None
    } else if (0x202A <= v && v <= 0x202E) || (0x2066 <= v && v <= 0x2069) {
        Some(Fault::BidirectionalOverride)
    } else if v == 0x149 || v == 0x673 || v == 0xF77 || v == 0xF79 || v == 0x17A3 || v == 0x17A4
        || v == 0x17B4 || v == 0x17B5 {
        Some(Fault::Deprecated)
    } else if char_is_control(c) {
        Some(Fault::ControlCode)
    } else {
        None
    }
}

proof fn lemma_encode_concat(a: Seq<char>, b: Seq<char>)
    ensures
        encode_utf8(a + b) == encode_utf8(a) + encode_utf8(b),
    decreases a.len(),
{
    if a.len() == 0 {
        assert(a + b == b);
    } else {
        lemma_encode_concat(a.drop_first(), b);
        assert((a + b).drop_first() == a.drop_first() + b);
        assert((a + b)[0] == a[0]);
    }
}

proof fn lemma_offset_step(s: Seq<char>, i: int)
    requires
        0 <= i < s.len(),
    ensures
        byte_offset(s, i + 1) == byte_offset(s, i) + encode_scalar(s[i] as u32).len(),
        byte_offset(s, i + 1) <= encode_utf8(s).len(),
        1 <= encode_scalar(s[i] as u32).len() <= 4,
{
    let one = seq![s[i]];
    lemma_encode_concat(s.take(i), one);
    assert(s.take(i) + one == s.take(i + 1));
    assert(one.drop_first() == Seq::<char>::empty());
    assert(encode_utf8(one) == encode_scalar(s[i] as u32) + encode_utf8(one.drop_first()));
    lemma_encode_concat(s.take(i + 1), s.skip(i + 1));
    assert(s.take(i + 1) + s.skip(i + 1) == s);
}

/// How many bytes a character takes in UTF-8.
fn utf8_width(c: char) -> (n: usize)
    ensures
        n == encode_scalar(c as u32).len(),
{
    let v = c as u32;
    if v <= 0x7F {
        1
    } else if v <= 0x7FF {
        2
    } else if v <= 0xFFFF {
        3
    } else {
        4
    }
}

/// Looks for the first codepoint that a source text must not hold: one that
/// changes the direction of text, one that Unicode deprecates, or a control
/// code other than line feed, carriage return and tab. The error tells the
/// byte offset of that codepoint.
pub fn detect_invalid_input(input: &str) -> (outcome: Result<(), Error>)
    ensures
        outcome is Ok <==> forall|i: int| 0 <= i < input@.len() ==> fault_of(input@[i]) is None,
        outcome matches Err(e) ==> exists|i: int|
            0 <= i < input@.len() && fault_of(input@[i]) is Some && (forall|j: int|
                0 <= j < i ==> fault_of(input@[j]) is None) && byte_offset(input@, i) <= usize::MAX
                && e == fault_error(fault_of(input@[i])->0, byte_offset(input@, i) as usize),
{
    let total = input.as_bytes().len();
    let mut position: usize = 0;
    for c in it: input.chars()
        invariant
            it.seq() == input@,
            total == encode_utf8(input@).len(),
            position == byte_offset(input@, it.index() as int),
            position <= total,
            forall|j: int| 0 <= j < it.index() ==> fault_of(input@[j]) is None,
    {
        proof {
            lemma_offset_step(input@, it.index() as int);
        }
        match check_codepoint(c) {
            Some(Fault::BidirectionalOverride) => {
                return Err(Error::bidirectional_override_codepoint(position));
            },
            Some(Fault::Deprecated) => {
                return Err(Error::deprecated_codepoint(position));
            },
            Some(Fault::ControlCode) => {
                return Err(Error::control_code(position));
            },
            None => {},
        }
        position = position + utf8_width(c);
    }
    Ok(())
}

/// The values of the steps that succeeded.
pub open spec fn successes<T>(outcomes: Seq<Result<T, Error>>) -> Seq<T>
    decreases outcomes.len(),
{
    if outcomes.len() == 0 {
        Seq::empty()
    } else {
        match outcomes.last() {
            Ok(value) => successes(outcomes.drop_last()).push(value),
            Err(_) => successes(outcomes.drop_last()),
        }
    }
}

/// The errors of the steps that failed.
pub open spec fn failures<T>(outcomes: Seq<Result<T, Error>>) -> Seq<Error>
    decreases outcomes.len(),
{
    if outcomes.len() == 0 {
        Seq::empty()
    } else {
        match outcomes.last() {
            Ok(_) => failures(outcomes.drop_last()),
            Err(error) => failures(outcomes.drop_last()).push(error),
        }
    }
}

/// What the outcomes of independent steps amount to: all their values, or
/// all their errors in one.
pub open spec fn transposed<T>(outcomes: Seq<Result<T, Error>>, joined: Result<Vec<T>, Error>) -> bool {
    if failures(outcomes).len() == 0 {
        joined matches Ok(values) && values@ == successes(outcomes)
    } else {
        joined matches Err(Error::Multi { errors }) && errors@ == failures(outcomes)
    }
}

/// One step of joining: takes the outcome of one more step into what the
/// earlier steps amount to.
pub fn merge<T>(acc: Result<Vec<T>, Error>, outcome: Result<T, Error>) -> (merged: Result<
    Vec<T>,
    Error,
>)
    ensures
        match (acc, outcome) {
            (Ok(left), Ok(value)) => merged matches Ok(values) && values@ == left@.push(value),
            (Err(Error::Multi { errors }), Err(error)) => merged matches Err(
                Error::Multi { errors: more },
            ) && more@ == errors@.push(error),
            (Err(other), Err(_)) => merged == Err::<Vec<T>, Error>(other),
            (Ok(_), Err(error)) => merged matches Err(Error::Multi { errors }) && errors@ == seq![
                error,
            ],
            (Err(other), Ok(_)) => merged == Err::<Vec<T>, Error>(other),
        },
{
    match (acc, outcome) {
        (Ok(mut left), Ok(value)) => {
            left.push(value);
            Ok(left)
        },
        (Err(right), Err(error)) => {
            match right {
                Error::Multi { mut errors } => {
                    errors.push(error);
                    Err(Error::Multi { errors })
                },
                other => Err(other),
            }
        },
        (Ok(_), Err(error)) => {
            let mut errors: Vec<Error> = Vec::new();
            errors.push(error);
            Err(Error::Multi { errors })
        },
        (Err(right), Ok(_)) => Err(right),
    }
}

/// Joins the outcomes of independent steps.
pub trait IteratorExt<T> {
    /// The outcomes that are to be joined.
    spec fn outcomes(&self) -> Seq<Result<T, Error>>;

    /// All the values in the order of the steps where every step succeeded,
    /// else the errors of the steps that failed, in their order, as one
    /// error.
    fn transponse_result(self) -> (joined: Result<Vec<T>, Error>)
        ensures
            transposed(self.outcomes(), joined),
    ;
}

impl<T> IteratorExt<T> for Vec<Result<T, Error>> {
    open spec fn outcomes(&self) -> Seq<Result<T, Error>> {
        self@
    }

    fn transponse_result(self) -> (joined: Result<Vec<T>, Error>) {
        let ghost all = self@;
        let mut rest = self;
        let mut taken: Vec<Result<T, Error>> = Vec::new();
        // The outcomes are taken from the end, and put back in order.
        while rest.len() > 0
            invariant
                rest@ + taken@.reverse() == all,
            decreases rest.len(),
        {
            let ghost before = rest@;
            let outcome = rest.pop().unwrap();
            taken.push(outcome);
            proof {
                assert(taken@.reverse() == seq![outcome] + taken@.drop_last().reverse());
                assert(before == rest@.push(outcome));
            }
        }
        assert(taken@.reverse() == all);
        let mut acc: Result<Vec<T>, Error> = Ok(Vec::new());
        let ghost mut done: Seq<Result<T, Error>> = Seq::empty();
        while taken.len() > 0
            invariant
                done + taken@.reverse() == all,
                transposed(done, acc),
            decreases taken.len(),
        {
            let ghost before = taken@;
            let ghost earlier = done;
            let ghost joined = acc;
            let outcome = taken.pop().unwrap();
            let ghost step = outcome;
            proof {
                assert(before.reverse() == seq![step] + taken@.reverse());
                done = done.push(step);
                assert(done.drop_last() == earlier);
                assert(done.last() == step);
            }
            acc = merge(acc, outcome);
            proof {
                match (joined, step) {
                    (Ok(left), Ok(value)) => {
                        assert(successes(done) == successes(earlier).push(value));
                        assert(failures(done) == failures(earlier));
                    },
                    (Ok(left), Err(error)) => {
                        assert(failures(done) == failures(earlier).push(error));
                        assert(failures(earlier).push(error) == seq![error]);
                    },
                    (Err(e), Ok(value)) => {
                        assert(failures(done) == failures(earlier));
                    },
                    (Err(e), Err(error)) => {
                        assert(failures(done) == failures(earlier).push(error));
                    },
                }
            }
        }
        assert(done == all);
        acc
    }
}

/// The items as an enumeration in words: the last of several follows the
/// word "or".
pub open spec fn list_text(items: Seq<Seq<char>>) -> Seq<char>
    decreases items.len(),
{
    if items.len() == 0 {
        Seq::empty()
    } else if items.len() == 1 {
        items[0]
    } else if items.len() == 2 {
        items[0] + ", "@ + "or "@ + items[1]
    } else {
        items[0] + ", "@ + list_text(items.drop_first())
    }
}

/// The items as they stand before the last one: each followed by a comma.
pub open spec fn list_head(items: Seq<Seq<char>>, n: int) -> Seq<char>
    decreases n,
{
    if n <= 0 {
        Seq::empty()
    } else {
        list_head(items, n - 1) + items[n - 1] + ", "@
    }
}

proof fn lemma_list_text(items: Seq<Seq<char>>)
    requires
        items.len() >= 2,
    ensures
        list_text(items) == list_head(items, items.len() - 1) + "or "@ + items.last(),
    decreases items.len(),
{
    let n = items.len() as int;
    if n == 2 {
        assert(list_head(items, 1) == list_head(items, 0) + items[0] + ", "@);
        assert(list_head(items, 0) + items[0] == items[0]);
    } else {
        let rest = items.drop_first();
        lemma_list_text(rest);
        lemma_list_head_shift(items, n - 2);
        assert(rest.last() == items.last());
        assert(items[0] + ", "@ + (list_head(rest, n - 2) + "or "@ + rest.last()) == items[0] + ", "@
            + list_head(rest, n - 2) + "or "@ + rest.last());
    }
}

proof fn lemma_list_head_shift(items: Seq<Seq<char>>, n: int)
    requires
        0 <= n < items.len(),
    ensures
        list_head(items, n + 1) == items[0] + ", "@ + list_head(items.drop_first(), n),
    decreases n,
{
    let rest = items.drop_first();
    if n == 0 {
        assert(list_head(items, 1) == list_head(items, 0) + items[0] + ", "@);
        assert(list_head(items, 0) + items[0] == items[0]);
        assert(items[0] + ", "@ + list_head(rest, 0) == items[0] + ", "@);
    } else {
        lemma_list_head_shift(items, n - 1);
        assert(rest[n - 1] == items[n]);
        assert(items[0] + ", "@ + list_head(rest, n - 1) + items[n] + ", "@ == items[0] + ", "@ + (
        list_head(rest, n - 1) + rest[n - 1] + ", "@));
    }
}

/// Writes a list of alternatives in words: `a`, then `a, or b`, then
/// `a, b, or c`.
pub fn print_list(items: &Vec<String>) -> (out: String)
    ensures
        out@ == list_text(views(items@)),
{
    let mut out = String::new();
    let n = items.len();
    let mut i: usize = 0;
    while i < n
        invariant
            i <= n,
            n == items.len(),
            n <= 1 ==> out@ == list_text(views(items@).take(i as int)),
            n >= 2 && i < n ==> out@ == list_head(views(items@), i as int),
            n >= 2 && i == n ==> out@ == list_text(views(items@)),
        decreases n - i,
    {
        let ghost texts = views(items@);
        if i + 1 < n {
            out.append(items[i].as_str());
            out.append(", ");
        } else if n == 1 {
            proof {
                assert(texts.take(1)[0] == items[0]@);
                assert(Seq::<char>::empty() + items[0]@ == items[0]@);
            }
            out.append(items[i].as_str());
        } else {
            proof {
                lemma_list_text(texts);
            }
            out.append("or ");
            out.append(items[i].as_str());
        }
        i += 1;
    }
    assert(views(items@).take(n as int) == views(items@));
    out
}

/// The Damerau-Levenshtein distance of two texts, as the `distance` crate
/// computes it.
pub uninterp spec fn damerau_levenshtein_distance(s: Seq<char>, t: Seq<char>) -> nat;

/// How far a word may be from the query to be proposed in its place.
pub const SIMILARITY: usize = 3;

/// `distance::damerau_levenshtein`: the result depends on the characters of
/// the two texts alone, and is named [`damerau_levenshtein_distance`].
#[verifier::external_body]
fn damerau_levenshtein(s: &str, t: &str) -> (d: usize)
    ensures
        d == damerau_levenshtein_distance(s@, t@),
{
    distance::damerau_levenshtein(s, t)
}

/// The words whose distance is within the limit, in their order.
pub open spec fn within(words: Seq<Seq<char>>, distances: Seq<nat>, limit: nat) -> Seq<Seq<char>>
    decreases words.len(),
{
    if words.len() == 0 {
        Seq::empty()
    } else if distances[words.len() - 1] <= limit {
        within(words.drop_last(), distances, limit).push(words.last())
    } else {
        within(words.drop_last(), distances, limit)
    }
}

/// The distances of the words to the query.
pub open spec fn distances_to(words: Seq<Seq<char>>, query: Seq<char>) -> Seq<nat> {
    Seq::new(words.len(), |i: int| damerau_levenshtein_distance(words[i], query))
}

/// Keeps the words whose distance is within the limit, in their order.
pub fn select_within(words: &Vec<String>, distances: &Vec<usize>, limit: usize) -> (kept: Vec<
    String,
>)
    requires
        distances.len() == words.len(),
    ensures
        views(kept@) == within(
            views(words@),
            Seq::new(distances.len() as nat, |i: int| distances[i] as nat),
            limit as nat,
        ),
{
    let ghost all = views(words@);
    let ghost ds = Seq::new(distances.len() as nat, |i: int| distances[i] as nat);
    let mut kept: Vec<String> = Vec::new();
    let mut i: usize = 0;
    while i < words.len()
        invariant
            i <= words.len(),
            distances.len() == words.len(),
            all == views(words@),
            ds == Seq::new(distances.len() as nat, |i: int| distances[i] as nat),
            views(kept@) == within(all.take(i as int), ds, limit as nat),
        decreases words.len() - i,
    {
        proof {
            assert(all.take(i + 1).drop_last() == all.take(i as int));
            assert(all.take(i + 1).last() == words[i as int]@);
        }
        if distances[i] <= limit {
            let ghost before = views(kept@);
            kept.push(words[i].clone());
            assert(views(kept@) == before.push(words[i as int]@));
        }
        i += 1;
    }
    assert(all.take(words.len() as int) == all);
    kept
}

/// The words that are close to the query: those at a Damerau-Levenshtein
/// distance of at most 3, in the order in which they were given.
pub fn find_similar(words: &Vec<String>, query: &str) -> (similar: Vec<String>)
    ensures
        views(similar@) == within(
            views(words@),
            distances_to(views(words@), query@),
            SIMILARITY as nat,
        ),
{
    let mut distances: Vec<usize> = Vec::new();
    let mut i: usize = 0;
    while i < words.len()
        invariant
            i <= words.len(),
            distances.len() == i,
            forall|k: int|
                0 <= k < i ==> distances[k] as nat == damerau_levenshtein_distance(
                    (#[trigger] words[k])@,
                    query@,
                ),
        decreases words.len() - i,
    {
        distances.push(damerau_levenshtein(words[i].as_str(), query));
        i += 1;
    }
    assert(Seq::new(distances.len() as nat, |i: int| distances[i] as nat) == distances_to(
        views(words@),
        query@,
    ));
    select_within(words, &distances, SIMILARITY)
}

} // verus!
