use vstd::prelude::*;
use crate::text::{
    decimal, find_first_in, find_last_in, first_index, is_digit, last_index, lemma_decimal,
    lemma_first_index_at, lemma_last_index_at, lemma_parse_decimal, lemma_trim_bounds,
    parse_usize, parse_usize_chars, str_to_chars, trim, trim_bounds,
};
use crate::ui::menu::actions::position_link_text;

verus! {

/// The position that a line of an output panel links to: the text between
/// its last `(` and its last `)` must read `LINE:COLUMN`, both numbers (blanks
/// around them allowed) and neither 0.
pub open spec fn linked_position(line: Seq<char>) -> Option<(usize, usize)> {
    let open = last_index(line, '(');
    let close = last_index(line, ')');
    let pos = line.subrange(open + 1, close);
    let c = first_index(pos, ':');
    if open < 0 || close < 0 || close <= open + 1 || c < 0 {
        None
    } else {
        match (parse_usize(trim(pos.take(c))), parse_usize(trim(pos.skip(c + 1)))) {
            (Some(l), Some(k)) => if l == 0 || k == 0 {
                None
            } else {
                Some((l, k))
            },
            _ => None,
        }
    }
}

/// Reads the links of the lexical and error panels.
pub struct ErrorNavigator;

impl ErrorNavigator {
    /// The source position that a clicked panel line points at, if any.
    pub fn parse_position(line: &str) -> (r: Option<(usize, usize)>)
        ensures
            r == linked_position(line@),
    {
        let cs = str_to_chars(line);
        let n = cs.len();
        let open = match find_last_in(cs.as_slice(), 0, n, '(') {
            Some(k) => k,
            None => {
                assert(cs@.subrange(0, n as int) =~= line@);
                return None;
            },
        };
        let close = match find_last_in(cs.as_slice(), 0, n, ')') {
            Some(k) => k,
            None => {
                assert(cs@.subrange(0, n as int) =~= line@);
                return None;
            },
        };
        assert(cs@.subrange(0, n as int) =~= line@);
        if close <= open + 1 {
            return None;
        }
        let ghost pos = line@.subrange(open + 1, close as int);
        assert(pos =~= cs@.subrange(open + 1, close as int));
        let colon = match find_first_in(cs.as_slice(), open + 1, close, ':') {
            Some(k) => k,
            None => {
                return None;
            },
        };
        assert(pos.take(colon - open - 1) =~= cs@.subrange(open + 1, colon as int));
        assert(pos.skip(colon - open) =~= cs@.subrange(colon + 1, close as int));
        let (a, b) = trim_bounds(cs.as_slice(), open + 1, colon);
        let (c, d) = trim_bounds(cs.as_slice(), colon + 1, close);
        let line_n = match parse_usize_chars(cs.as_slice(), a, b) {
            Some(v) => v,
            None => {
                return None;
            },
        };
        let col_n = match parse_usize_chars(cs.as_slice(), c, d) {
            Some(v) => v,
            None => {
                return None;
            },
        };
        if line_n == 0 || col_n == 0 {
            return None;
        }
        Some((line_n, col_n))
    }
}

/// Whatever comes before it on the line, a position link leads back to the
/// position it was written for.
pub proof fn lemma_link_roundtrip(prefix: Seq<char>, line: usize, column: usize)
    requires
        line >= 1,
        column >= 1,
    ensures
        linked_position(prefix + position_link_text(line as nat, column as nat)) == Some(
            (line, column),
        ),
{
    let d1 = decimal(line as nat);
    let d2 = decimal(column as nat);
    lemma_decimal(line as nat);
    lemma_decimal(column as nat);
    lemma_parse_decimal(line);
    lemma_parse_decimal(column);
    let s = prefix + position_link_text(line as nat, column as nat);
    let p = prefix.len() as int;
    let q = p + 1 + d1.len();
    let e = q + 1 + d2.len();
    assert(s =~= prefix + seq!['('] + d1 + seq![':'] + d2 + seq![')']);
    assert(s.len() == e + 1);
    // the last `(` opens the link
    assert forall|j: int| p < j < s.len() implies s[j] != '(' by {
        if j < q {
            assert(s[j] == d1[j - p - 1]);
            assert(is_digit(d1[j - p - 1]));
        } else if j == q {
        } else if j < e {
            assert(s[j] == d2[j - q - 1]);
            assert(is_digit(d2[j - q - 1]));
        }
    }
    assert(s[p] == '(');
    lemma_last_index_at(s, '(', p);
    assert(s[e] == ')');
    lemma_last_index_at(s, ')', e);
    let pos = s.subrange(p + 1, e);
    assert(pos =~= d1 + seq![':'] + d2);
    assert forall|j: int| 0 <= j < d1.len() implies pos[j] != ':' by {
        assert(pos[j] == d1[j]);
        assert(is_digit(d1[j]));
    }
    assert(pos[d1.len() as int] == ':');
    lemma_first_index_at(pos, ':', d1.len() as int);
    assert(pos.take(d1.len() as int) =~= d1);
    assert(pos.skip(d1.len() as int + 1) =~= d2);
    lemma_trim_bounds(d1, 0, d1.len() as int);
    lemma_trim_bounds(d2, 0, d2.len() as int);
    assert(d1.subrange(0, d1.len() as int) =~= d1);
    assert(d2.subrange(0, d2.len() as int) =~= d2);
}

} // verus!
