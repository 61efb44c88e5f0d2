use vstd::prelude::*;
use crate::models::Token;
use crate::text::{chars_occur_at, decimal, occurs_at, str_eq, str_to_chars, usize_to_decimal};

verus! {

/// The token types shown as keywords.
pub open spec fn is_keyword_type(t: Seq<char>) -> bool {
    ||| t == "MAIN"@
    ||| t == "IF"@
    ||| t == "ELSE"@
    ||| t == "END"@
    ||| t == "DO"@
    ||| t == "WHILE"@
    ||| t == "FOR"@
    ||| t == "SWITCH"@
    ||| t == "CASE"@
    ||| t == "RETURN"@
    ||| t == "VOID"@
    ||| t == "INT_T"@
    ||| t == "FLOAT_T"@
    ||| t == "CHAR_T"@
    ||| t == "BOOL_T"@
    ||| t == "TRUE"@
    ||| t == "FALSE"@
    ||| t == "CIN"@
    ||| t == "COUT"@
    ||| t == "INCLUDE"@
    ||| t == "DEFINE"@
    ||| t == "STRUCT"@
    ||| t == "BREAK"@
    ||| t == "CONTINUE"@
}

/// The colour of a token in the lexical panel, by its type (and, for `REL`,
/// its lexeme).
pub open spec fn token_color(token_type: Seq<char>, lexeme: Seq<char>) -> Seq<char> {
    if is_keyword_type(token_type) {
        "#569cd6"@
    } else if token_type == "INT"@ || token_type == "FLOAT"@ {
        "#b5cea8"@
    } else if token_type == "STRING"@ || token_type == "CHAR"@ {
        "#ce9178"@
    } else if token_type == "ID"@ {
        "#ff57f4"@
    } else if token_type == "SYM"@ {
        "#d7ba7d"@
    } else if token_type == "ARIT"@ || token_type == "OP"@ || token_type == "ASIG"@ {
        "#f44747"@
    } else if token_type == "REL"@ {
        if lexeme == "="@ {
            "#f44747"@
        } else {
            "#569cd6"@
        }
    } else {
        "#ffffff"@
    }
}

fn is_keyword_tag(t: &str) -> (b: bool)
    ensures
        b == is_keyword_type(t@),
{
    str_eq(t, "MAIN") || str_eq(t, "IF") || str_eq(t, "ELSE") || str_eq(t, "END") || str_eq(
        t,
        "DO",
    ) || str_eq(t, "WHILE") || str_eq(t, "FOR") || str_eq(t, "SWITCH") || str_eq(t, "CASE")
        || str_eq(t, "RETURN") || str_eq(t, "VOID") || str_eq(t, "INT_T") || str_eq(t, "FLOAT_T")
        || str_eq(t, "CHAR_T") || str_eq(t, "BOOL_T") || str_eq(t, "TRUE") || str_eq(t, "FALSE")
        || str_eq(t, "CIN") || str_eq(t, "COUT") || str_eq(t, "INCLUDE") || str_eq(t, "DEFINE")
        || str_eq(t, "STRUCT") || str_eq(t, "BREAK") || str_eq(t, "CONTINUE")
}

/// The colour of a token in the lexical panel.
pub fn lexical_token_color(tipo: &str, lexema: &str) -> (c: &'static str)
    ensures
        c@ == token_color(tipo@, lexema@),
{
    if is_keyword_tag(tipo) {
        "#569cd6"
    } else if str_eq(tipo, "INT") || str_eq(tipo, "FLOAT") {
        "#b5cea8"
    } else if str_eq(tipo, "STRING") || str_eq(tipo, "CHAR") {
        "#ce9178"
    } else if str_eq(tipo, "ID") {
        "#ff57f4"
    } else if str_eq(tipo, "SYM") {
        "#d7ba7d"
    } else if str_eq(tipo, "ARIT") || str_eq(tipo, "OP") || str_eq(tipo, "ASIG") {
        "#f44747"
    } else if str_eq(tipo, "REL") {
        if str_eq(lexema, "=") {
            "#f44747"
        } else {
            "#569cd6"
        }
    } else {
        "#ffffff"
    }
}

/// The first index at or after `start_char` where `query` occurs in `text`,
/// counted in characters. An empty query, or a start at or past the end,
/// finds nothing.
pub fn find_char_offset(text: &str, query: &str, start_char: usize) -> (r: Option<usize>)
    ensures
        match r {
            Some(k) => {
                &&& query@.len() > 0
                &&& start_char <= k
                &&& occurs_at(text@, query@, k as int)
                &&& forall|j: int| start_char <= j < k ==> !occurs_at(text@, query@, j)
            },
            None => query@.len() == 0 || start_char >= text@.len() || forall|j: int|
                start_char <= j ==> !occurs_at(text@, query@, j),
        },
{
    let haystack = str_to_chars(text);
    let needle = str_to_chars(query);
    if needle.len() == 0 || start_char >= haystack.len() {
        return None;
    }
    let mut k = start_char;
    while k < haystack.len() && needle.len() <= haystack.len() - k
        invariant
            haystack@ == text@,
            needle@ == query@,
            needle@.len() > 0,
            start_char <= k <= haystack@.len(),
            forall|j: int| start_char <= j < k ==> !occurs_at(text@, query@, j),
        decreases haystack@.len() - k,
    {
        if chars_occur_at(haystack.as_slice(), needle.as_slice(), k) {
            return Some(k);
        }
        k += 1;
    }
    None
}

/// Where a search for `query` from `start` selects: the next match, or,
/// when there is none after `start`, the first one from the beginning; as
/// the character range `(begin, end)` of the match. An empty query finds
/// nothing.
pub fn find_next_range(text: &str, query: &str, start: usize) -> (r: Option<(usize, usize)>)
    ensures
        query@.len() == 0 ==> r is None,
        match r {
            Some((b, e)) => {
                &&& e == b + query@.len()
                &&& occurs_at(text@, query@, b as int)
                &&& ((start <= b && forall|j: int| start <= j < b ==> !occurs_at(text@, query@, j))
                    || ((forall|j: int| start <= j ==> !occurs_at(text@, query@, j)) && forall|
                    j: int,
                | 0 <= j < b ==> !occurs_at(text@, query@, j)))
            },
            None => forall|j: int| 0 <= j ==> !occurs_at(text@, query@, j) || query@.len() == 0,
        },
{
    let found = match find_char_offset(text, query, start) {
        Some(k) => Some(k),
        None => find_char_offset(text, query, 0),
    };
    match found {
        Some(b) => {
            let n = query.unicode_len();
            let total = text.unicode_len();
            proof {
                assert(b + n <= total);
            }
            Some((b, b + n))
        },
        None => None,
    }
}

/// The link that points at a position: `(LINE:COLUMN)`.
pub open spec fn position_link_text(line: nat, column: nat) -> Seq<char> {
    seq!['('] + decimal(line) + seq![':'] + decimal(column) + seq![')']
}

/// The link text after each token and error in the output panels.
pub fn position_link(line: usize, column: usize) -> (s: String)
    ensures
        s@ == position_link_text(line as nat, column as nat),
{
    let mut s = String::new();
    s.append("(");
    s.append(usize_to_decimal(line).as_str());
    s.append(":");
    s.append(usize_to_decimal(column).as_str());
    s.append(")");
    proof {
        reveal_strlit("(");
        reveal_strlit(":");
        reveal_strlit(")");
        assert(s@ =~= position_link_text(line as nat, column as nat));
    }
    s
}

/// How a token is listed in the lexical panel, before its link:
/// `TYPE: 'LEXEME' `.
pub fn token_entry(token: &Token) -> (s: String)
    ensures
        s@ == token.token_type@ + ": '"@ + token.lexeme@ + "' "@,
{
    let mut s = token.token_type.clone();
    s.append(": '");
    s.append(token.lexeme.as_str());
    s.append("' ");
    s
}

/// The file beside a source file where its tokens are kept: the file name
/// with `.tokens` added, or `untitled.c--.tokens` for a file never saved.
pub fn tokens_file_name(file_name: Option<&str>) -> (s: String)
    ensures
        s@ == match file_name {
            Some(n) => n@ + ".tokens"@,
            None => "untitled.c--.tokens"@,
        },
{
    match file_name {
        Some(n) => {
            let mut s = n.to_owned();
            s.append(".tokens");
            s
        },
        None => "untitled.c--.tokens".to_owned(),
    }
}

} // verus!

verus! {

/// Tokens of one kind share a colour, whatever their text: numbers (`INT`
/// and `FLOAT`) are green, string and character literals orange,
/// identifiers pink, symbols gold, arithmetic operators, `++`/`--`,
/// `&&`/`||` and assignments red, and every keyword blue; a comparison is
/// blue like a keyword, but a lone `=` is red like an assignment.
pub proof fn lemma_colors_by_kind(a: Seq<char>, b: Seq<char>)
    ensures
        token_color("INT"@, a) == "#b5cea8"@,
        token_color("FLOAT"@, b) == token_color("INT"@, a),
        token_color("STRING"@, a) == "#ce9178"@,
        token_color("CHAR"@, b) == token_color("STRING"@, a),
        token_color("ID"@, a) == "#ff57f4"@,
        token_color("SYM"@, a) == "#d7ba7d"@,
        token_color("ARIT"@, a) == "#f44747"@,
        token_color("OP"@, b) == token_color("ARIT"@, a),
        token_color("ASIG"@, b) == token_color("ARIT"@, a),
        forall|t: Seq<char>| is_keyword_type(t) ==> token_color(t, a) == "#569cd6"@,
        token_color("REL"@, "="@) == token_color("ASIG"@, a),
        b != "="@ ==> token_color("REL"@, b) == token_color("MAIN"@, a),
{
    reveal_strlit("MAIN");
    assert("MAIN"@ =~= seq!['M', 'A', 'I', 'N']);
    reveal_strlit("IF");
    assert("IF"@ =~= seq!['I', 'F']);
    reveal_strlit("ELSE");
    assert("ELSE"@ =~= seq!['E', 'L', 'S', 'E']);
    reveal_strlit("END");
    assert("END"@ =~= seq!['E', 'N', 'D']);
    reveal_strlit("DO");
    assert("DO"@ =~= seq!['D', 'O']);
    reveal_strlit("WHILE");
    assert("WHILE"@ =~= seq!['W', 'H', 'I', 'L', 'E']);
    reveal_strlit("FOR");
    assert("FOR"@ =~= seq!['F', 'O', 'R']);
    reveal_strlit("SWITCH");
    assert("SWITCH"@ =~= seq!['S', 'W', 'I', 'T', 'C', 'H']);
    reveal_strlit("CASE");
    assert("CASE"@ =~= seq!['C', 'A', 'S', 'E']);
    reveal_strlit("RETURN");
    assert("RETURN"@ =~= seq!['R', 'E', 'T', 'U', 'R', 'N']);
    reveal_strlit("VOID");
    assert("VOID"@ =~= seq!['V', 'O', 'I', 'D']);
    reveal_strlit("INT_T");
    assert("INT_T"@ =~= seq!['I', 'N', 'T', '_', 'T']);
    reveal_strlit("FLOAT_T");
    assert("FLOAT_T"@ =~= seq!['F', 'L', 'O', 'A', 'T', '_', 'T']);
    reveal_strlit("CHAR_T");
    assert("CHAR_T"@ =~= seq!['C', 'H', 'A', 'R', '_', 'T']);
    reveal_strlit("BOOL_T");
    assert("BOOL_T"@ =~= seq!['B', 'O', 'O', 'L', '_', 'T']);
    reveal_strlit("TRUE");
    assert("TRUE"@ =~= seq!['T', 'R', 'U', 'E']);
    reveal_strlit("FALSE");
    assert("FALSE"@ =~= seq!['F', 'A', 'L', 'S', 'E']);
    reveal_strlit("CIN");
    assert("CIN"@ =~= seq!['C', 'I', 'N']);
    reveal_strlit("COUT");
    assert("COUT"@ =~= seq!['C', 'O', 'U', 'T']);
    reveal_strlit("INCLUDE");
    assert("INCLUDE"@ =~= seq!['I', 'N', 'C', 'L', 'U', 'D', 'E']);
    reveal_strlit("DEFINE");
    assert("DEFINE"@ =~= seq!['D', 'E', 'F', 'I', 'N', 'E']);
    reveal_strlit("STRUCT");
    assert("STRUCT"@ =~= seq!['S', 'T', 'R', 'U', 'C', 'T']);
    reveal_strlit("BREAK");
    assert("BREAK"@ =~= seq!['B', 'R', 'E', 'A', 'K']);
    reveal_strlit("CONTINUE");
    assert("CONTINUE"@ =~= seq!['C', 'O', 'N', 'T', 'I', 'N', 'U', 'E']);
    reveal_strlit("INT");
    assert("INT"@ =~= seq!['I', 'N', 'T']);
    reveal_strlit("FLOAT");
    assert("FLOAT"@ =~= seq!['F', 'L', 'O', 'A', 'T']);
    reveal_strlit("STRING");
    assert("STRING"@ =~= seq!['S', 'T', 'R', 'I', 'N', 'G']);
    reveal_strlit("CHAR");
    assert("CHAR"@ =~= seq!['C', 'H', 'A', 'R']);
    reveal_strlit("ID");
    assert("ID"@ =~= seq!['I', 'D']);
    reveal_strlit("SYM");
    assert("SYM"@ =~= seq!['S', 'Y', 'M']);
    reveal_strlit("ARIT");
    assert("ARIT"@ =~= seq!['A', 'R', 'I', 'T']);
    reveal_strlit("OP");
    assert("OP"@ =~= seq!['O', 'P']);
    reveal_strlit("ASIG");
    assert("ASIG"@ =~= seq!['A', 'S', 'I', 'G']);
    reveal_strlit("REL");
    assert("REL"@ =~= seq!['R', 'E', 'L']);
    assert(!is_keyword_type("REL"@));
    assert(!is_keyword_type("INT"@));
    assert(!is_keyword_type("FLOAT"@));
    assert(!is_keyword_type("STRING"@));
    assert(!is_keyword_type("CHAR"@));
    assert(!is_keyword_type("ID"@));
    assert(!is_keyword_type("SYM"@));
    assert(!is_keyword_type("ARIT"@));
    assert(!is_keyword_type("OP"@));
    assert(!is_keyword_type("ASIG"@));
}

} // verus!
