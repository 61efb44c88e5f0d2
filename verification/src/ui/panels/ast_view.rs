use vstd::prelude::*;
use crate::text::{chars_contain, chars_occur_at, contains_seq, has_prefix, str_eq, str_to_chars};

verus! {

/// What a syntax-tree label shows, which decides its colour.
#[derive(Debug, Clone, Copy, PartialEq, Eq, Structural)]
pub enum LabelClass {
    Error,
    Id,
    Number,
    Str,
    Bool,
    Type,
    Statement,
    Relational,
    Operator,
    Plain,
}

/// The class of a label. The first rule that matches decides: error words,
/// then the `id:`, `number:`, `string:`, `bool:` and `type:` prefixes, then
/// statement keywords and names, then relational and operator names.
pub open spec fn label_class(l: Seq<char>) -> LabelClass {
    if contains_seq(l, "Error"@) || contains_seq(l, "Unexpected"@) || contains_seq(
        l,
        "Unknown"@,
    ) {
        LabelClass::Error
    } else if has_prefix(l, "id:"@) {
        LabelClass::Id
    } else if has_prefix(l, "number:"@) {
        LabelClass::Number
    } else if has_prefix(l, "string:"@) {
        LabelClass::Str
    } else if has_prefix(l, "bool:"@) {
        LabelClass::Bool
    } else if has_prefix(l, "type:"@) {
        LabelClass::Type
    } else if l == "main"@ || l == "if"@ || l == "while"@ || l == "do"@ || l == "until"@ {
        LabelClass::Statement
    } else if contains_seq(l, "Expression"@) || contains_seq(l, "Selection"@) || contains_seq(
        l,
        "Iteration"@,
    ) || contains_seq(l, "Repetition"@) || contains_seq(l, "Input"@) || contains_seq(
        l,
        "Output"@,
    ) || contains_seq(l, "Declaration"@) || contains_seq(l, "Block"@) {
        LabelClass::Statement
    } else if contains_seq(l, "Relational"@) || l == "Not"@ {
        LabelClass::Relational
    } else if contains_seq(l, "Assignment"@) || contains_seq(l, "Postfix"@) || contains_seq(
        l,
        "Prefix"@,
    ) || contains_seq(l, "UnaryOp"@) || contains_seq(l, "AddOp"@) || contains_seq(l, "MulOp"@)
        || contains_seq(l, "Logical"@) || contains_seq(l, "Power"@) {
        LabelClass::Operator
    } else {
        LabelClass::Plain
    }
}

/// The colour of a class, in the dark or the light palette.
pub open spec fn class_color(c: LabelClass, is_dark: bool) -> Seq<char> {
    if is_dark {
        match c {
            LabelClass::Error => "#f44747"@,
            LabelClass::Id => "#ff57f4"@,
            LabelClass::Number => "#b5cea8"@,
            LabelClass::Str => "#ce9178"@,
            LabelClass::Operator => "#f44747"@,
            LabelClass::Plain => "#ffffff"@,
            _ => "#569cd6"@,
        }
    } else {
        match c {
            LabelClass::Error => "#d91919"@,
            LabelClass::Number => "#098658"@,
            LabelClass::Str => "#a31515"@,
            LabelClass::Id | LabelClass::Operator | LabelClass::Plain => "#000000"@,
            _ => "#0000ff"@,
        }
    }
}

fn contains(l: &[char], word: &str) -> (b: bool)
    ensures
        b == contains_seq(l@, word@),
{
    let w = str_to_chars(word);
    chars_contain(l, w.as_slice())
}

fn starts_with(l: &[char], word: &str) -> (b: bool)
    ensures
        b == has_prefix(l@, word@),
{
    let w = str_to_chars(word);
    chars_occur_at(l, w.as_slice(), 0)
}

/// The class of a syntax-tree label.
pub fn classify_label(label: &str) -> (c: LabelClass)
    ensures
        c == label_class(label@),
{
    let cs = str_to_chars(label);
    let l = cs.as_slice();
    if contains(l, "Error") || contains(l, "Unexpected") || contains(l, "Unknown") {
        LabelClass::Error
    } else if starts_with(l, "id:") {
        LabelClass::Id
    } else if starts_with(l, "number:") {
        LabelClass::Number
    } else if starts_with(l, "string:") {
        LabelClass::Str
    } else if starts_with(l, "bool:") {
        LabelClass::Bool
    } else if starts_with(l, "type:") {
        LabelClass::Type
    } else if str_eq(label, "main") || str_eq(label, "if") || str_eq(label, "while") || str_eq(
        label,
        "do",
    ) || str_eq(label, "until") {
        LabelClass::Statement
    } else if contains(l, "Expression") || contains(l, "Selection") || contains(l, "Iteration")
        || contains(l, "Repetition") || contains(l, "Input") || contains(l, "Output") || contains(
        l,
        "Declaration",
    ) || contains(l, "Block") {
        LabelClass::Statement
    } else if contains(l, "Relational") || str_eq(label, "Not") {
        LabelClass::Relational
    } else if contains(l, "Assignment") || contains(l, "Postfix") || contains(l, "Prefix")
        || contains(l, "UnaryOp") || contains(l, "AddOp") || contains(l, "MulOp") || contains(
        l,
        "Logical",
    ) || contains(l, "Power") {
        LabelClass::Operator
    } else {
        LabelClass::Plain
    }
}

fn color_of_class(c: LabelClass, is_dark: bool) -> (s: &'static str)
    ensures
        s@ == class_color(c, is_dark),
{
    if is_dark {
        match c {
            LabelClass::Error => "#f44747",
            LabelClass::Id => "#ff57f4",
            LabelClass::Number => "#b5cea8",
            LabelClass::Str => "#ce9178",
            LabelClass::Operator => "#f44747",
            LabelClass::Plain => "#ffffff",
            _ => "#569cd6",
        }
    } else {
        match c {
            LabelClass::Error => "#d91919",
            LabelClass::Number => "#098658",
            LabelClass::Str => "#a31515",
            LabelClass::Id | LabelClass::Operator | LabelClass::Plain => "#000000",
            _ => "#0000ff",
        }
    }
}

/// The colour in which the syntax-tree panel shows a label.
pub fn label_color(label: &str, is_dark: bool) -> (s: String)
    ensures
        s@ == class_color(label_class(label@), is_dark),
{
    color_of_class(classify_label(label), is_dark).to_owned()
}

/// The piece of the tree prefix for the row at depth `i + 1` on the path to
/// a row: its connector (`├── `, or `└── ` for a last child) for the row
/// itself, and three columns for each ancestor: a continuation line `│  `,
/// or blanks below a last child; so `"│  ├── "` or `"   └── "`.
pub open spec fn prefix_piece(flags: Seq<bool>, i: int) -> Seq<char> {
    if i == flags.len() - 1 {
        if flags[i] {
            "└── "@
        } else {
            "├── "@
        }
    } else {
        if flags[i] {
            "   "@
        } else {
            "│  "@
        }
    }
}

/// The pieces for the first `n` levels, in order.
pub open spec fn prefix_upto(flags: Seq<bool>, n: int) -> Seq<char>
    decreases n,
{
    if n <= 0 {
        Seq::empty()
    } else {
        prefix_upto(flags, n - 1) + prefix_piece(flags, n - 1)
    }
}

/// The box-drawing prefix of a syntax-tree row, from whether each node on
/// its path below the root (the row's own node last) is the last child of
/// its parent; a root row has none and gets an empty prefix.
pub fn tree_prefix(flags: &[bool]) -> (s: String)
    ensures
        s@ == prefix_upto(flags@, flags@.len() as int),
{
    let mut s = String::new();
    let n = flags.len();
    let mut i: usize = 0;
    while i < n
        invariant
            n == flags@.len(),
            i <= n,
            s@ == prefix_upto(flags@, i as int),
        decreases n - i,
    {
        if i == n - 1 {
            if flags[i] {
                s.append("└── ");
            } else {
                s.append("├── ");
            }
        } else {
            if flags[i] {
                s.append("   ");
            } else {
                s.append("│  ");
            }
        }
        i += 1;
    }
    s
}

} // verus!

verus! {

proof fn lemma_prefix_levels(flags: Seq<bool>, m: int)
    requires
        0 <= m < flags.len(),
    ensures
        prefix_upto(flags, m).len() == 3 * m,
        forall|i: int|
            0 <= i < m ==> #[trigger] prefix_upto(flags, m).subrange(3 * i, 3 * i + 3) == (if flags[i] {
                "   "@
            } else {
                "│  "@
            }),
    decreases m,
{
    reveal_strlit("   ");
    reveal_strlit("│  ");
    if m > 0 {
        lemma_prefix_levels(flags, m - 1);
        let a = prefix_upto(flags, m - 1);
        let p = prefix_piece(flags, m - 1);
        let s = prefix_upto(flags, m);
        assert(s == a + p);
        assert forall|i: int| 0 <= i < m implies #[trigger] s.subrange(3 * i, 3 * i + 3) == (if flags[i] {
            "   "@
        } else {
            "│  "@
        }) by {
            if i < m - 1 {
                assert(s.subrange(3 * i, 3 * i + 3) =~= a.subrange(3 * i, 3 * i + 3));
            } else {
                assert(s.subrange(3 * i, 3 * i + 3) =~= p);
            }
        }
    } else {
        assert(prefix_upto(flags, 0).len() == 0);
    }
}

/// Each level of a tree prefix takes its piece from its own flag alone, at
/// every depth: three columns per ancestor, blanks below an ancestor that is
/// a last child and a bar with two blanks below any other; then the row's
/// own connector, `└── ` for a last child and `├── ` otherwise. A root row
/// (no flags) has an empty prefix.
pub proof fn lemma_tree_prefix_pieces(flags: Seq<bool>)
    ensures
        flags.len() == 0 ==> prefix_upto(flags, 0).len() == 0,
        flags.len() > 0 ==> ({
            let s = prefix_upto(flags, flags.len() as int);
            let n = flags.len() - 1;
            &&& s.len() == 3 * n + 4
            &&& forall|i: int|
                0 <= i < n ==> #[trigger] s.subrange(3 * i, 3 * i + 3) == (if flags[i] {
                    "   "@
                } else {
                    "│  "@
                })
            &&& s.subrange(3 * n, 3 * n + 4) == (if flags[n] {
                "└── "@
            } else {
                "├── "@
            })
        }),
{
    reveal_strlit("└── ");
    reveal_strlit("├── ");
    if flags.len() > 0 {
        let n = flags.len() - 1;
        lemma_prefix_levels(flags, n);
        let a = prefix_upto(flags, n);
        let p = prefix_piece(flags, n);
        let s = prefix_upto(flags, flags.len() as int);
        assert(s == a + p);
        assert forall|i: int| 0 <= i < n implies #[trigger] s.subrange(3 * i, 3 * i + 3) == (if flags[i] {
            "   "@
        } else {
            "│  "@
        }) by {
            assert(s.subrange(3 * i, 3 * i + 3) =~= a.subrange(3 * i, 3 * i + 3));
        }
        assert(s.subrange(3 * n, 3 * n + 4) =~= p);
    }
}

} // verus!

verus! {

/// A label that names an error (`Error`, `Unexpected` or `Unknown`).
pub open spec fn names_error(l: Seq<char>) -> bool {
    contains_seq(l, "Error"@) || contains_seq(l, "Unexpected"@) || contains_seq(l, "Unknown"@)
}

/// The colour of each kind of label, in the dark palette and in the light
/// one: a label that names an error is red wherever that word stands; other
/// labels go by their prefix: identifiers (`id:`) pink or black, numbers
/// (`number:`) green, strings (`string:`) orange or dark red, and `bool:` and
/// `type:` labels blue, as statement keywords (`main`, `if`, `while`, `do`,
/// `until`) are.
pub proof fn lemma_label_colors(l: Seq<char>, dark: bool)
    ensures
        names_error(l) ==> class_color(label_class(l), dark) == (if dark {
            "#f44747"@
        } else {
            "#d91919"@
        }),
        !names_error(l) && has_prefix(l, "id:"@) ==> class_color(label_class(l), dark) == (if dark {
            "#ff57f4"@
        } else {
            "#000000"@
        }),
        !names_error(l) && has_prefix(l, "number:"@) ==> class_color(label_class(l), dark) == (
        if dark {
            "#b5cea8"@
        } else {
            "#098658"@
        }),
        !names_error(l) && has_prefix(l, "string:"@) ==> class_color(label_class(l), dark) == (
        if dark {
            "#ce9178"@
        } else {
            "#a31515"@
        }),
        !names_error(l) && (has_prefix(l, "bool:"@) || has_prefix(l, "type:"@) || l == "main"@
            || l == "if"@ || l == "while"@ || l == "do"@ || l == "until"@) ==> class_color(
            label_class(l),
            dark,
        ) == (if dark {
            "#569cd6"@
        } else {
            "#0000ff"@
        }),
{
    reveal_strlit("id:");
    reveal_strlit("number:");
    reveal_strlit("string:");
    reveal_strlit("bool:");
    reveal_strlit("type:");
    reveal_strlit("main");
    reveal_strlit("if");
    reveal_strlit("while");
    reveal_strlit("do");
    reveal_strlit("until");
    assert("id:"@ =~= seq!['i', 'd', ':']);
    assert("number:"@ =~= seq!['n', 'u', 'm', 'b', 'e', 'r', ':']);
    assert("string:"@ =~= seq!['s', 't', 'r', 'i', 'n', 'g', ':']);
    assert("bool:"@ =~= seq!['b', 'o', 'o', 'l', ':']);
    assert("type:"@ =~= seq!['t', 'y', 'p', 'e', ':']);
    assert("main"@ =~= seq!['m', 'a', 'i', 'n']);
    assert("if"@ =~= seq!['i', 'f']);
    assert("while"@ =~= seq!['w', 'h', 'i', 'l', 'e']);
    assert("do"@ =~= seq!['d', 'o']);
    assert("until"@ =~= seq!['u', 'n', 't', 'i', 'l']);
    if l.len() > 0 {
        let c = l[0];
        if has_prefix(l, "id:"@) {
            assert(l.subrange(0, 3)[0] == c);
        }
        if has_prefix(l, "number:"@) {
            assert(l.subrange(0, 7)[0] == c);
        }
        if has_prefix(l, "string:"@) {
            assert(l.subrange(0, 7)[0] == c);
        }
        if has_prefix(l, "bool:"@) {
            assert(l.subrange(0, 5)[0] == c);
        }
        if has_prefix(l, "type:"@) {
            assert(l.subrange(0, 5)[0] == c);
        }
    }
}

} // verus!
