//! Queries: their terms, and the boost of technology terms.

use vstd::prelude::*;

use crate::indexer::tech_terms::TECH_TERMS_TO_BOOST;
use crate::text::{
    chars_eq_ignore_ascii_case, chars_of, eq_ignore_ascii_case, is_white_space, push_char, texts,
    white_space,
};

verus! {

/// What the splitter has seen after reading a prefix of a query: the terms
/// that are closed, the term being read, and whether the text read so far
/// ends inside a quoted span.
pub struct SplitState {
    pub terms: Seq<Seq<char>>,
    pub current: Seq<char>,
    pub in_quotes: bool,
}

/// The splitter before it has read anything.
pub open spec fn split_start() -> SplitState {
    SplitState { terms: Seq::empty(), current: Seq::empty(), in_quotes: false }
}

/// Reads one character. A double quote toggles the quoting state and belongs
/// to the term; white space outside quotes closes the term being read, if
/// there is one; any other character is added to it.
pub open spec fn split_step(st: SplitState, c: char) -> SplitState {
    let in_quotes = if c == '"' {
        !st.in_quotes
    } else {
        st.in_quotes
    };
    if white_space(c) && !in_quotes {
        if st.current.len() > 0 {
            SplitState { terms: st.terms.push(st.current), current: Seq::empty(), in_quotes }
        } else {
            SplitState { terms: st.terms, current: st.current, in_quotes }
        }
    } else {
        SplitState { terms: st.terms, current: st.current.push(c), in_quotes }
    }
}

/// The splitter's state after reading all of `query`.
pub open spec fn split_scan(query: Seq<char>) -> SplitState
    decreases query.len(),
{
    if query.len() == 0 {
        split_start()
    } else {
        split_step(split_scan(query.drop_last()), query.last())
    }
}

/// The terms of a query: it is cut at all white space that is not inside
/// a double-quoted span, and empty pieces are dropped. A quote that is
/// never closed keeps the rest of the query in the last term.
pub open spec fn split_terms(query: Seq<char>) -> Seq<Seq<char>> {
    let st = split_scan(query);
    if st.current.len() > 0 {
        st.terms.push(st.current)
    } else {
        st.terms
    }
}

/// Splits a query string into terms, preserving quoted phrases.
pub fn split_query_terms(query_str: &str) -> (terms: Vec<String>)
    ensures
        texts(terms@) == split_terms(query_str@),
{
    let mut terms: Vec<String> = Vec::new();
    let mut current_term = String::new();
    let mut in_quotes = false;
    assert(texts(terms@) =~= Seq::<Seq<char>>::empty());
    assert(query_str@.take(0).len() == 0);

    for c in it: query_str.chars()
        invariant
            it.seq() == query_str@,
            split_scan(query_str@.take(it.index() as int)) == (SplitState {
                terms: texts(terms@),
                current: current_term@,
                in_quotes,
            }),
    {
        proof {
            let n = it.index() as int;
            assert(query_str@.take(n + 1).drop_last() == query_str@.take(n));
            assert(query_str@.take(n + 1).last() == c);
        }
        let ghost before = texts(terms@);
        if c == '"' {
            in_quotes = !in_quotes;
        }
        if is_white_space(c) && !in_quotes {
            if !current_term.as_str().is_empty() {
                let ghost closed = current_term@;
                terms.push(current_term);
                current_term = String::new();
                assert(texts(terms@) =~= before.push(closed));
            }
        } else {
            push_char(&mut current_term, c);
        }
    }
    assert(query_str@.take(query_str@.len() as int) == query_str@);
    if !current_term.as_str().is_empty() {
        let ghost before = texts(terms@);
        let ghost closed = current_term@;
        terms.push(current_term);
        assert(texts(terms@) =~= before.push(closed));
    }
    terms
}

/// A term with a double quote anywhere in it is quoted.
pub open spec fn is_quoted(term: Seq<char>) -> bool {
    term.contains('"')
}

/// A term is in the vocabulary when it equals one of the technology terms
/// up to the case of its ASCII letters.
pub open spec fn in_vocabulary(term: Seq<char>) -> bool {
    exists|k: int|
        0 <= k < TECH_TERMS_TO_BOOST@.len() && eq_ignore_ascii_case(
            (#[trigger] TECH_TERMS_TO_BOOST@[k])@,
            term,
        )
}

/// The terms that get a weight: unquoted terms of the vocabulary.
pub open spec fn is_boosted(term: Seq<char>) -> bool {
    !is_quoted(term) && in_vocabulary(term)
}

/// A term as it stands in the boosted query: a boosted term is followed by
/// `^` and the factor, any other term is unchanged.
pub open spec fn boost_term(term: Seq<char>, factor: Seq<char>) -> Seq<char> {
    if is_boosted(term) {
        term + seq!['^'] + factor
    } else {
        term
    }
}

/// Every term of a list as it stands in the boosted query.
pub open spec fn boost_terms(terms: Seq<Seq<char>>, factor: Seq<char>) -> Seq<Seq<char>> {
    Seq::new(terms.len(), |i: int| boost_term(terms[i], factor))
}

/// The terms in order, with one space between neighbours.
pub open spec fn join_terms(terms: Seq<Seq<char>>) -> Seq<char>
    decreases terms.len(),
{
    if terms.len() == 0 {
        Seq::empty()
    } else if terms.len() == 1 {
        terms[0]
    } else {
        join_terms(terms.drop_last()) + seq![' '] + terms.last()
    }
}

/// The boosted form of a query: its terms, each boosted where it is due,
/// joined by single spaces.
pub open spec fn boosted_query(query: Seq<char>, factor: Seq<char>) -> Seq<char> {
    join_terms(boost_terms(split_terms(query), factor))
}

/// Whether a double quote occurs in the term.
fn has_quote(term: &Vec<char>) -> (found: bool)
    ensures
        found == is_quoted(term@),
{
    let mut i: usize = 0;
    while i < term.len()
        invariant
            i <= term.len(),
            forall|j: int| 0 <= j < i ==> term@[j] != '"',
        decreases term.len() - i,
    {
        if term[i] == '"' {
            return true;
        }
        i += 1;
    }
    false
}

/// Whether the term is one of the technology terms, up to ASCII case.
fn matches_vocabulary(term: &Vec<char>) -> (found: bool)
    ensures
        found == in_vocabulary(term@),
{
    let mut k: usize = 0;
    while k < TECH_TERMS_TO_BOOST.len()
        invariant
            k <= TECH_TERMS_TO_BOOST@.len(),
            forall|j: int|
                0 <= j < k ==> !eq_ignore_ascii_case((#[trigger] TECH_TERMS_TO_BOOST@[j])@, term@),
        decreases TECH_TERMS_TO_BOOST@.len() - k,
    {
        let tech = chars_of(TECH_TERMS_TO_BOOST[k]);
        if chars_eq_ignore_ascii_case(&tech, term) {
            return true;
        }
        k += 1;
    }
    false
}

/// Applies boosting to the technology terms of a query. `tech_term_boost` is
/// the factor as it is written behind `^`.
pub fn boost_tech_terms(query_str: &str, tech_term_boost: &str) -> (boosted: String)
    ensures
        boosted@ == boosted_query(query_str@, tech_term_boost@),
{
    let terms = split_query_terms(query_str);
    let ghost wanted = boost_terms(split_terms(query_str@), tech_term_boost@);
    let mut boosted = String::new();
    let mut i: usize = 0;
    while i < terms.len()
        invariant
            i <= terms.len(),
            texts(terms@) == split_terms(query_str@),
            wanted == boost_terms(split_terms(query_str@), tech_term_boost@),
            boosted@ == join_terms(wanted.take(i as int)),
        decreases terms.len() - i,
    {
        let ghost joined = boosted@;
        if i > 0 {
            push_char(&mut boosted, ' ');
        }
        let term = terms[i].as_str();
        let chars = chars_of(term);
        boosted.append(term);
        if !has_quote(&chars) && matches_vocabulary(&chars) {
            push_char(&mut boosted, '^');
            boosted.append(tech_term_boost);
        }
        proof {
            let upto = wanted.take(i as int + 1);
            assert(texts(terms@)[i as int] == term@);
            assert(upto.drop_last() == wanted.take(i as int));
            assert(upto.last() == boost_term(term@, tech_term_boost@));
            if i == 0 {
                assert(boosted@ =~= upto[0]);
            } else {
                assert(boosted@ =~= joined + seq![' '] + upto.last());
            }
        }
        i += 1;
    }
    assert(wanted.take(terms.len() as int) == wanted);
    boosted
}

/// A query with every semicolon turned into a space.
pub open spec fn without_semicolons(query: Seq<char>) -> Seq<char> {
    Seq::new(
        query.len(),
        |i: int|
            if query[i] == ';' {
                ' '
            } else {
                query[i]
            },
    )
}

/// The text that is handed to the query parser for a query: the boosted
/// form of the query without its semicolons.
pub open spec fn query_text(query: Seq<char>, factor: Seq<char>) -> Seq<char> {
    boosted_query(without_semicolons(query), factor)
}

/// The text that is handed to the query parser for a query: semicolons
/// become spaces, then the technology terms are boosted.
pub fn construct_query_text(query_str: &str, tech_term_boost: &str) -> (text: String)
    ensures
        text@ == query_text(query_str@, tech_term_boost@),
{
    let mut cleaned = String::new();
    for c in it: query_str.chars()
        invariant
            it.seq() == query_str@,
            cleaned@ == without_semicolons(query_str@).take(it.index() as int),
    {
        let ghost before = cleaned@;
        if c == ';' {
            push_char(&mut cleaned, ' ');
        } else {
            push_char(&mut cleaned, c);
        }
        assert(cleaned@ =~= without_semicolons(query_str@).take(it.index() + 1));
    }
    assert(cleaned@ =~= without_semicolons(query_str@));
    boost_tech_terms(cleaned.as_str(), tech_term_boost)
}

/// How many double quotes a text holds.
pub open spec fn quote_count(text: Seq<char>) -> nat
    decreases text.len(),
{
    if text.len() == 0 {
        0
    } else {
        quote_count(text.drop_last()) + if text.last() == '"' {
            1nat
        } else {
            0nat
        }
    }
}

/// While a query is read, the quoting state is the parity of the quotes
/// read, the term being read is the end of what was read, and inside a
/// quoted span that term holds a quote.
proof fn lemma_scan_shape(query: Seq<char>)
    ensures
        split_scan(query).in_quotes == (quote_count(query) % 2 == 1),
        split_scan(query).current.len() <= query.len(),
        split_scan(query).current == query.skip(query.len() - split_scan(query).current.len()),
        split_scan(query).in_quotes ==> is_quoted(split_scan(query).current),
        forall|i: int| 0 <= i < split_scan(query).terms.len() ==> (#[trigger] split_scan(query).terms[i]).len() > 0,
    decreases query.len(),
{
    let st = split_scan(query);
    if query.len() > 0 {
        let prev = query.drop_last();
        lemma_scan_shape(prev);
        let before = split_scan(prev);
        let c = query.last();
        if white_space(c) && !st.in_quotes {
            assert(st.current.len() == 0);
            assert(st.current =~= query.skip(query.len() - 0));
        } else {
            assert(st.current == before.current.push(c));
            assert(st.current =~= query.skip(query.len() - st.current.len()));
            if st.in_quotes {
                if c == '"' {
                    assert(st.current[st.current.len() - 1] == '"');
                } else {
                    let j = choose|j: int| 0 <= j < before.current.len() && before.current[j] == '"';
                    assert(st.current[j] == '"');
                }
            }
        }
    } else {
        assert(st.current =~= query.skip(0));
    }
}

/// Every term of a query holds at least one character.
pub proof fn lemma_terms_not_empty(query: Seq<char>)
    ensures
        forall|i: int| 0 <= i < split_terms(query).len() ==> (#[trigger] split_terms(query)[i]).len() > 0,
{
    lemma_scan_shape(query);
}

/// A place of a query at which the splitter cuts: white space before
/// which the quotes come in pairs.
pub open spec fn is_cut(query: Seq<char>, i: int) -> bool {
    0 <= i < query.len() && white_space(query[i]) && quote_count(query.take(i)) % 2 == 0
}

/// The term that the splitter is reading starts just behind the last cut
/// of what was read, or at the start where there is no cut, and holds no
/// cut itself.
proof fn lemma_current_starts_behind_last_cut(query: Seq<char>)
    ensures
        ({
            let start = query.len() - split_scan(query).current.len();
            &&& 0 <= start <= query.len()
            &&& forall|i: int| start <= i < query.len() ==> !is_cut(query, i)
            &&& start == 0 || is_cut(query, start - 1)
        }),
    decreases query.len(),
{
    lemma_scan_shape(query);
    if query.len() > 0 {
        let prev = query.drop_last();
        let n = prev.len() as int;
        lemma_current_starts_behind_last_cut(prev);
        lemma_scan_shape(prev);
        let before = split_scan(prev);
        let after = split_scan(query);
        let c = query.last();
        assert(query.take(n) =~= prev);
        assert forall|i: int| 0 <= i < n implies is_cut(query, i) == is_cut(prev, i) by {
            assert(query.take(i) =~= prev.take(i));
        }
        if white_space(c) && !after.in_quotes {
            assert(is_cut(query, n));
        } else {
            assert(!is_cut(query, n));
            assert(after.current.len() == before.current.len() + 1);
        }
    }
}

/// A quote that is never closed does not stop the splitter: the query
/// still has a last term, fixed by the query alone. That term holds a
/// double quote and runs to the end of the query, white space included.
/// It starts just behind the last place at which the splitter cuts, or at
/// the start of the query where it cuts nowhere; after that place the
/// query holds no cut, so the term holds the quote that was left open and
/// all that follows it.
pub proof fn lemma_unterminated_quote(query: Seq<char>)
    requires
        quote_count(query) % 2 == 1,
    ensures
        split_terms(query).len() > 0,
        is_quoted(split_terms(query).last()),
        split_terms(query).last().len() <= query.len(),
        split_terms(query).last() == query.skip(query.len() - split_terms(query).last().len()),
        ({
            let start = query.len() - split_terms(query).last().len();
            &&& forall|i: int| start <= i < query.len() ==> !is_cut(query, i)
            &&& start == 0 || is_cut(query, start - 1)
        }),
{
    lemma_scan_shape(query);
    lemma_current_starts_behind_last_cut(query);
    let st = split_scan(query);
    let j = choose|j: int| 0 <= j < st.current.len() && st.current[j] == '"';
    assert(st.current.len() > 0);
}

/// How many terms of a list get a weight.
pub open spec fn boosted_count(terms: Seq<Seq<char>>) -> nat
    decreases terms.len(),
{
    if terms.len() == 0 {
        0
    } else {
        boosted_count(terms.drop_last()) + if is_boosted(terms.last()) {
            1nat
        } else {
            0nat
        }
    }
}

/// A term carries a weight when it is the plain term followed by `^` and
/// the factor.
pub open spec fn is_annotated(term: Seq<char>, plain: Seq<char>, factor: Seq<char>) -> bool {
    term == plain + seq!['^'] + factor
}

/// How many terms of `terms` carry a weight, each held against the term at
/// the same place in `plain`.
pub open spec fn annotated_count(
    plain: Seq<Seq<char>>,
    terms: Seq<Seq<char>>,
    factor: Seq<char>,
) -> nat
    decreases plain.len(),
{
    if plain.len() == 0 || terms.len() == 0 {
        0
    } else {
        annotated_count(plain.drop_last(), terms.drop_last(), factor) + if is_annotated(
            terms.last(),
            plain.last(),
            factor,
        ) {
            1nat
        } else {
            0nat
        }
    }
}

/// Boosting a list of terms puts a weight on exactly the unquoted terms of
/// the vocabulary and leaves every other term, quoted ones among them, as
/// it was.
pub proof fn lemma_boost_terms_counts(terms: Seq<Seq<char>>, factor: Seq<char>)
    ensures
        boost_terms(terms, factor).len() == terms.len(),
        annotated_count(terms, boost_terms(terms, factor), factor) == boosted_count(terms),
        forall|i: int|
            0 <= i < terms.len() && is_boosted(#[trigger] terms[i]) ==> is_annotated(
                boost_terms(terms, factor)[i],
                terms[i],
                factor,
            ),
        forall|i: int|
            0 <= i < terms.len() && !is_boosted(#[trigger] terms[i]) ==> boost_terms(
                terms,
                factor,
            )[i] == terms[i] && !is_annotated(boost_terms(terms, factor)[i], terms[i], factor),
    decreases terms.len(),
{
    let out = boost_terms(terms, factor);
    assert forall|i: int| 0 <= i < terms.len() && !is_boosted(#[trigger] terms[i]) implies !is_annotated(
        out[i],
        terms[i],
        factor,
    ) by {
        assert((terms[i] + seq!['^'] + factor).len() > terms[i].len());
    }
    if terms.len() > 0 {
        lemma_boost_terms_counts(terms.drop_last(), factor);
        assert(out.drop_last() =~= boost_terms(terms.drop_last(), factor));
        assert(out.last() == boost_term(terms.last(), factor));
    }
}

/// The boosted query is made of the query's terms in their order; among
/// them exactly the unquoted terms of the vocabulary carry a weight, and no
/// quoted term does.
pub proof fn lemma_boost_correct(query: Seq<char>, factor: Seq<char>)
    ensures
        boosted_query(query, factor) == join_terms(boost_terms(split_terms(query), factor)),
        boost_terms(split_terms(query), factor).len() == split_terms(query).len(),
        annotated_count(split_terms(query), boost_terms(split_terms(query), factor), factor)
            == boosted_count(split_terms(query)),
        forall|i: int|
            0 <= i < split_terms(query).len() && is_quoted(#[trigger] split_terms(query)[i])
                ==> boost_terms(split_terms(query), factor)[i] == split_terms(query)[i],
{
    lemma_boost_terms_counts(split_terms(query), factor);
}

/// The splitter's state after reading `text` from the state `st` on.
pub open spec fn scan_from(st: SplitState, text: Seq<char>) -> SplitState
    decreases text.len(),
{
    if text.len() == 0 {
        st
    } else {
        split_step(scan_from(st, text.drop_last()), text.last())
    }
}

/// A text holds together when all of its white space stands inside a
/// quoted span of the text, so that the splitter does not cut it.
pub open spec fn holds_together(text: Seq<char>) -> bool {
    forall|i: int|
        0 <= i < text.len() && white_space(text[i]) ==> quote_count(#[trigger] text.take(i)) % 2
            == 1
}

/// A text without white space and without double quotes.
pub open spec fn is_plain(text: Seq<char>) -> bool {
    forall|i: int| 0 <= i < text.len() ==> !white_space(#[trigger] text[i]) && text[i] != '"'
}

proof fn lemma_scan_from_start(query: Seq<char>)
    ensures
        split_scan(query) == scan_from(split_start(), query),
    decreases query.len(),
{
    if query.len() > 0 {
        lemma_scan_from_start(query.drop_last());
    }
}

proof fn lemma_scan_concat(st: SplitState, a: Seq<char>, b: Seq<char>)
    ensures
        scan_from(st, a + b) == scan_from(scan_from(st, a), b),
    decreases b.len(),
{
    if b.len() == 0 {
        assert(a + b =~= a);
    } else {
        lemma_scan_concat(st, a, b.drop_last());
        assert((a + b).drop_last() =~= a + b.drop_last());
        assert((a + b).last() == b.last());
    }
}

proof fn lemma_quote_count_push(text: Seq<char>, c: char)
    ensures
        quote_count(text.push(c)) == quote_count(text) + if c == '"' {
            1nat
        } else {
            0nat
        },
{
    assert(text.push(c).drop_last() =~= text);
}

proof fn lemma_no_quote_counts_zero(text: Seq<char>)
    requires
        !is_quoted(text),
    ensures
        quote_count(text) == 0,
    decreases text.len(),
{
    if text.len() > 0 {
        assert(text[text.len() - 1] != '"');
        assert forall|i: int| 0 <= i < text.drop_last().len() implies text.drop_last()[i] != '"' by {
            assert(text[i] != '"');
        }
        lemma_no_quote_counts_zero(text.drop_last());
    }
}

/// A text that holds together is read as one piece: from a state outside
/// quotes, reading it adds it to the term being read and closes no term.
proof fn lemma_scan_term(st: SplitState, term: Seq<char>)
    requires
        !st.in_quotes,
        holds_together(term),
    ensures
        scan_from(st, term).terms == st.terms,
        scan_from(st, term).current == st.current + term,
        scan_from(st, term).in_quotes == (quote_count(term) % 2 == 1),
    decreases term.len(),
{
    if term.len() == 0 {
        assert(st.current + term =~= st.current);
    } else {
        let head = term.drop_last();
        let c = term.last();
        assert forall|i: int| 0 <= i < head.len() && white_space(head[i]) implies quote_count(
            #[trigger] head.take(i),
        ) % 2 == 1 by {
            assert(head.take(i) =~= term.take(i));
            assert(term[i] == head[i]);
        }
        lemma_scan_term(st, head);
        assert(term.take(term.len() - 1) =~= head);
        let before = scan_from(st, head);
        let after = scan_from(st, term);
        assert(after == split_step(before, c));
        assert(after.current =~= st.current + term);
    }
}

/// The terms that the splitter closes hold together and have their quotes
/// in pairs; the term that it is reading holds together, and the splitter
/// is inside quotes just when that term has an odd number of quotes.
proof fn lemma_scan_terms_hold_together(query: Seq<char>)
    ensures
        forall|i: int|
            0 <= i < split_scan(query).terms.len() ==> holds_together(
                #[trigger] split_scan(query).terms[i],
            ) && quote_count(split_scan(query).terms[i]) % 2 == 0 && split_scan(query).terms[i].len()
                > 0,
        holds_together(split_scan(query).current),
        split_scan(query).in_quotes == (quote_count(split_scan(query).current) % 2 == 1),
    decreases query.len(),
{
    if query.len() > 0 {
        lemma_scan_terms_hold_together(query.drop_last());
        let before = split_scan(query.drop_last());
        let after = split_scan(query);
        let c = query.last();
        if white_space(c) && !after.in_quotes {
        } else {
            let current = after.current;
            assert(current == before.current.push(c));
            lemma_quote_count_push(before.current, c);
            assert forall|i: int|
                0 <= i < current.len() && white_space(current[i]) implies quote_count(
                #[trigger] current.take(i),
            ) % 2 == 1 by {
                if i < before.current.len() {
                    assert(current.take(i) =~= before.current.take(i));
                    assert(before.current[i] == current[i]);
                } else {
                    assert(current.take(i) =~= before.current);
                }
            }
        }
    }
}

/// Terms that hold together, joined by spaces, are split into themselves,
/// as long as every term but the last has its quotes in pairs.
proof fn lemma_split_of_join(terms: Seq<Seq<char>>)
    requires
        terms.len() > 0,
        forall|i: int| 0 <= i < terms.len() ==> holds_together(#[trigger] terms[i]) && terms[i].len() > 0,
        forall|i: int| 0 <= i < terms.len() - 1 ==> quote_count(#[trigger] terms[i]) % 2 == 0,
    ensures
        split_scan(join_terms(terms)).terms == terms.drop_last(),
        split_scan(join_terms(terms)).current == terms.last(),
        split_scan(join_terms(terms)).in_quotes == (quote_count(terms.last()) % 2 == 1),
        split_terms(join_terms(terms)) == terms,
    decreases terms.len(),
{
    let joined = join_terms(terms);
    lemma_scan_from_start(joined);
    if terms.len() == 1 {
        lemma_scan_term(split_start(), terms[0]);
        assert(split_start().current + terms[0] =~= terms[0]);
        assert(terms.drop_last() =~= Seq::<Seq<char>>::empty());
    } else {
        let head = terms.drop_last();
        let last = terms.last();
        assert forall|i: int| 0 <= i < head.len() implies holds_together(#[trigger] head[i])
            && head[i].len() > 0 by {
            assert(head[i] == terms[i]);
        }
        assert forall|i: int| 0 <= i < head.len() - 1 implies quote_count(#[trigger] head[i]) % 2
            == 0 by {
            assert(head[i] == terms[i]);
        }
        lemma_split_of_join(head);
        assert(head.last() == terms[terms.len() - 2]);
        let upto = join_terms(head) + seq![' '];
        assert(joined == upto + last);
        lemma_scan_concat(split_start(), upto, last);
        lemma_scan_from_start(join_terms(head));
        assert(upto.drop_last() =~= join_terms(head));
        assert(upto.last() == ' ');
        let closed = scan_from(split_start(), upto);
        assert(closed == split_step(split_scan(join_terms(head)), ' '));
        assert(closed.terms =~= head);
        assert(closed.current.len() == 0);
        lemma_scan_term(closed, last);
        assert(closed.current + last =~= last);
    }
    assert(terms.drop_last().push(terms.last()) =~= terms);
}

/// Splitting the boosted query gives the boosted terms of the query: the
/// weights cut no term and join none, as long as the factor holds neither
/// white space nor a double quote. So the boosted query holds exactly the
/// terms of the query, in their order, and among them exactly the
/// unquoted terms of the vocabulary carry a weight.
pub proof fn lemma_boosted_query_terms(query: Seq<char>, factor: Seq<char>)
    requires
        is_plain(factor),
    ensures
        split_terms(boosted_query(query, factor)) == boost_terms(split_terms(query), factor),
{
    let terms = split_terms(query);
    let boosted = boost_terms(terms, factor);
    lemma_scan_terms_hold_together(query);
    let st = split_scan(query);
    if terms.len() == 0 {
        assert(boosted =~= Seq::<Seq<char>>::empty());
        assert(split_terms(Seq::<char>::empty()) =~= Seq::<Seq<char>>::empty());
    } else {
        assert forall|i: int| 0 <= i < terms.len() implies holds_together(#[trigger] terms[i])
            && terms[i].len() > 0 && (i < terms.len() - 1 ==> quote_count(terms[i]) % 2 == 0) by {
            if i < st.terms.len() {
                assert(terms[i] == st.terms[i]);
            }
        }
        assert forall|i: int| 0 <= i < boosted.len() implies holds_together(#[trigger] boosted[i])
            && boosted[i].len() > 0 && (i < boosted.len() - 1 ==> quote_count(boosted[i]) % 2
            == 0) by {
            let term = terms[i];
            if is_boosted(term) {
                let weighted = term + seq!['^'] + factor;
                assert(boosted[i] == weighted);
                lemma_no_quote_counts_zero(term);
                assert forall|j: int| 0 <= j < weighted.len() implies !white_space(weighted[j])
                    && weighted[j] != '"' by {
                    if j < term.len() {
                        assert(weighted[j] == term[j]);
                        if white_space(term[j]) {
                            assert(!is_quoted(term.take(j))) by {
                                if is_quoted(term.take(j)) {
                                    let k = choose|k: int|
                                        0 <= k < term.take(j).len() && term.take(j)[k] == '"';
                                    assert(term[k] == '"');
                                }
                            }
                            lemma_no_quote_counts_zero(term.take(j));
                        }
                    } else if j > term.len() {
                        assert(weighted[j] == factor[j - term.len() - 1]);
                    }
                }
                lemma_no_quote_counts_zero(weighted);
            } else {
                assert(boosted[i] == term);
            }
        }
        lemma_split_of_join(boosted);
    }
}

/// Whether a term is in the vocabulary does not depend on the case of its
/// ASCII letters.
pub proof fn lemma_vocabulary_ignores_case(a: Seq<char>, b: Seq<char>)
    requires
        eq_ignore_ascii_case(a, b),
    ensures
        in_vocabulary(a) == in_vocabulary(b),
{
    if in_vocabulary(a) {
        let k = choose|k: int|
            0 <= k < TECH_TERMS_TO_BOOST@.len() && eq_ignore_ascii_case(
                (#[trigger] TECH_TERMS_TO_BOOST@[k])@,
                a,
            );
        assert(eq_ignore_ascii_case(TECH_TERMS_TO_BOOST@[k]@, b));
    }
    if in_vocabulary(b) {
        let k = choose|k: int|
            0 <= k < TECH_TERMS_TO_BOOST@.len() && eq_ignore_ascii_case(
                (#[trigger] TECH_TERMS_TO_BOOST@[k])@,
                b,
            );
        assert(eq_ignore_ascii_case(TECH_TERMS_TO_BOOST@[k]@, a));
    }
}

} // verus!
