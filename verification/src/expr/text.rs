//! The `Debug` text of expressions: the text that `{:?}` prints for them,
//! written out and built by verified code.

use vstd::prelude::*;
use vstd::string::*;
use crate::common::scalar::{ScalarModel, ScalarValue};
use super::{BinaryOperator, Expr, ExprModel, models_of, lemma_models_of};

verus! {

/// The decimal digit `d`.
pub open spec fn digit_char(d: nat) -> char {
    (d + 48) as char
}

/// The decimal text of `n`, without leading zeros.
pub open spec fn nat_text(n: nat) -> Seq<char>
    decreases n,
{
    if n < 10 {
        seq![digit_char(n)]
    } else {
        nat_text(n / 10).push(digit_char(n % 10))
    }
}

/// The decimal text of `i`, with a minus sign when it is negative.
pub open spec fn int_text(i: int) -> Seq<char> {
    if i < 0 {
        seq!['-'] + nat_text((-i) as nat)
    } else {
        nat_text(i as nat)
    }
}

/// The lower-case hexadecimal digit `d`.
pub open spec fn hex_char(d: nat) -> char {
    if d < 10 {
        (d + 48) as char
    } else {
        (d + 87) as char
    }
}

/// The lower-case hexadecimal text of `n`, without leading zeros.
pub open spec fn hex_text(n: nat) -> Seq<char>
    decreases n,
{
    if n < 16 {
        seq![hex_char(n)]
    } else {
        hex_text(n / 16).push(hex_char(n % 16))
    }
}

/// What `char::escape_debug` yields for `c`.
pub uninterp spec fn char_escape_debug(c: char) -> Seq<char>;

/// How a character of a string shows in the string's `Debug` text: quotes
/// and backslashes escaped, the usual control characters by letter, other
/// ASCII control characters as `\u{..}`; a character beyond ASCII as
/// `char::escape_debug` gives it (never a single quote, the one character
/// that a string's text and a character's text treat differently).
pub open spec fn char_debug(c: char) -> Seq<char> {
    if c == '\0' {
        "\\0"@
    } else if c == '\t' {
        "\\t"@
    } else if c == '\r' {
        "\\r"@
    } else if c == '\n' {
        "\\n"@
    } else if c == '\\' {
        "\\\\"@
    } else if c == '"' {
        "\\\""@
    } else if (c as int) < 32 || c as int == 127 {
        "\\u{"@ + hex_text(c as nat) + "}"@
    } else if (c as int) < 128 {
        seq![c]
    } else {
        char_escape_debug(c)
    }
}

/// The escaped characters of `s`, in order.
pub open spec fn chars_debug(s: Seq<char>) -> Seq<char>
    decreases s.len(),
{
    if s.len() == 0 {
        Seq::empty()
    } else {
        chars_debug(s.drop_last()) + char_debug(s.last())
    }
}

/// The `Debug` text of a string: its escaped characters in double quotes.
pub open spec fn str_debug(s: Seq<char>) -> Seq<char> {
    "\""@ + chars_debug(s) + "\""@
}

/// The value of a sequence of decimal digits, most significant first.
pub open spec fn digits_value(s: Seq<char>) -> int
    decreases s.len(),
{
    if s.len() == 0 {
        0
    } else {
        digits_value(s.drop_last()) * 10 + (s.last() as int - 48)
    }
}

/// The number a decimal text spells: digits, after a minus sign when the
/// text starts with one.
pub open spec fn read_int(s: Seq<char>) -> int {
    if s.len() > 0 && s[0] == '-' {
        -digits_value(s.drop_first())
    } else {
        digits_value(s)
    }
}

/// Decimal digits read back as the number they were written for, and the
/// first of them is a digit.
proof fn lemma_nat_text_reads_back(n: nat)
    ensures
        digits_value(nat_text(n)) == n,
        nat_text(n).len() > 0,
        nat_text(n)[0] != '-',
    decreases n,
{
    let t = nat_text(n);
    assert(digit_char(n % 10) as int == (n % 10) + 48);
    if n >= 10 {
        lemma_nat_text_reads_back(n / 10);
        assert(t.drop_last() =~= nat_text(n / 10));
        assert(t.last() == digit_char(n % 10));
        assert(t[0] == nat_text(n / 10)[0]);
        assert((n / 10) * 10 + n % 10 == n);
        assert(digits_value(t) == digits_value(t.drop_last()) * 10 + (t.last() as int - 48));
    } else {
        assert(t.drop_last() =~= Seq::<char>::empty());
        assert(n % 10 == n);
        assert(t.last() == digit_char(n));
        assert(digits_value(t) == digits_value(t.drop_last()) * 10 + (t.last() as int - 48));
    }
}

/// The decimal text of a number reads back as that number, and starts
/// with a minus sign exactly when the number is negative.
pub proof fn lemma_int_text_reads_back(i: int)
    ensures
        read_int(int_text(i)) == i,
        int_text(i).len() > 0,
        (int_text(i)[0] == '-') == (i < 0),
{
    if i < 0 {
        lemma_nat_text_reads_back((-i) as nat);
        assert((seq!['-'] + nat_text((-i) as nat)).drop_first() =~= nat_text((-i) as nat));
    } else {
        lemma_nat_text_reads_back(i as nat);
    }
}

/// An integer literal prints its value: inside `Some(..)` stands a decimal
/// text that reads back as the value and starts with a minus sign exactly
/// when the value is negative.
pub proof fn lemma_integer_literal_text(v: ScalarModel)
    ensures
        match v {
            ScalarModel::Int8(Some(n)) => exists|digits: Seq<char>|
                #![trigger read_int(digits)]
                scalar_text(v) == "Int8("@ + "Some("@ + digits + ")"@ + ")"@
                && read_int(digits) == n as int
                && (digits[0] == '-') == (n < 0),
            ScalarModel::Int16(Some(n)) => exists|digits: Seq<char>|
                #![trigger read_int(digits)]
                scalar_text(v) == "Int16("@ + "Some("@ + digits + ")"@ + ")"@
                && read_int(digits) == n as int
                && (digits[0] == '-') == (n < 0),
            ScalarModel::Int32(Some(n)) => exists|digits: Seq<char>|
                #![trigger read_int(digits)]
                scalar_text(v) == "Int32("@ + "Some("@ + digits + ")"@ + ")"@
                && read_int(digits) == n as int
                && (digits[0] == '-') == (n < 0),
            ScalarModel::Int64(Some(n)) => exists|digits: Seq<char>|
                #![trigger read_int(digits)]
                scalar_text(v) == "Int64("@ + "Some("@ + digits + ")"@ + ")"@
                && read_int(digits) == n as int
                && (digits[0] == '-') == (n < 0),
            ScalarModel::UInt8(Some(n)) => exists|digits: Seq<char>|
                #![trigger read_int(digits)]
                scalar_text(v) == "UInt8("@ + "Some("@ + digits + ")"@ + ")"@
                && read_int(digits) == n as int
                && (digits[0] == '-') == (n < 0),
            ScalarModel::UInt16(Some(n)) => exists|digits: Seq<char>|
                #![trigger read_int(digits)]
                scalar_text(v) == "UInt16("@ + "Some("@ + digits + ")"@ + ")"@
                && read_int(digits) == n as int
                && (digits[0] == '-') == (n < 0),
            ScalarModel::UInt32(Some(n)) => exists|digits: Seq<char>|
                #![trigger read_int(digits)]
                scalar_text(v) == "UInt32("@ + "Some("@ + digits + ")"@ + ")"@
                && read_int(digits) == n as int
                && (digits[0] == '-') == (n < 0),
            ScalarModel::UInt64(Some(n)) => exists|digits: Seq<char>|
                #![trigger read_int(digits)]
                scalar_text(v) == "UInt64("@ + "Some("@ + digits + ")"@ + ")"@
                && read_int(digits) == n as int
                && (digits[0] == '-') == (n < 0),
            _ => true,
        },
{
    match v {
        ScalarModel::Int8(Some(n)) => {
            lemma_int_text_reads_back(n as int);
            let digits = int_text(n as int);
            assert(scalar_text(v) == "Int8("@ + "Some("@ + digits + ")"@ + ")"@);
        },
        ScalarModel::Int16(Some(n)) => {
            lemma_int_text_reads_back(n as int);
            let digits = int_text(n as int);
            assert(scalar_text(v) == "Int16("@ + "Some("@ + digits + ")"@ + ")"@);
        },
        ScalarModel::Int32(Some(n)) => {
            lemma_int_text_reads_back(n as int);
            let digits = int_text(n as int);
            assert(scalar_text(v) == "Int32("@ + "Some("@ + digits + ")"@ + ")"@);
        },
        ScalarModel::Int64(Some(n)) => {
            lemma_int_text_reads_back(n as int);
            let digits = int_text(n as int);
            assert(scalar_text(v) == "Int64("@ + "Some("@ + digits + ")"@ + ")"@);
        },
        ScalarModel::UInt8(Some(n)) => {
            lemma_int_text_reads_back(n as int);
            let digits = int_text(n as int);
            assert(scalar_text(v) == "UInt8("@ + "Some("@ + digits + ")"@ + ")"@);
        },
        ScalarModel::UInt16(Some(n)) => {
            lemma_int_text_reads_back(n as int);
            let digits = int_text(n as int);
            assert(scalar_text(v) == "UInt16("@ + "Some("@ + digits + ")"@ + ")"@);
        },
        ScalarModel::UInt32(Some(n)) => {
            lemma_int_text_reads_back(n as int);
            let digits = int_text(n as int);
            assert(scalar_text(v) == "UInt32("@ + "Some("@ + digits + ")"@ + ")"@);
        },
        ScalarModel::UInt64(Some(n)) => {
            lemma_int_text_reads_back(n as int);
            let digits = int_text(n as int);
            assert(scalar_text(v) == "UInt64("@ + "Some("@ + digits + ")"@ + ")"@);
        },
        _ => {},
    }
}

/// The `Debug` text of a `bool`.
pub open spec fn bool_text(b: bool) -> Seq<char> {
    if b {
        "true"@
    } else {
        "false"@
    }
}

/// The `Debug` text of an `Option`, given that of its content.
pub open spec fn option_text<A>(o: Option<A>, inner: spec_fn(A) -> Seq<char>) -> Seq<char> {
    match o {
        Some(a) => "Some("@ + inner(a) + ")"@,
        None => "None"@,
    }
}

/// The decimal texts of `bytes`, separated by `", "`.
pub open spec fn bytes_items(bytes: Seq<u8>) -> Seq<char>
    decreases bytes.len(),
{
    if bytes.len() == 0 {
        Seq::empty()
    } else if bytes.len() == 1 {
        int_text(bytes[0] as int)
    } else {
        bytes_items(bytes.drop_last()) + ", "@ + int_text(bytes.last() as int)
    }
}

/// The `Debug` text of a byte vector: `[1, 2, 3]`.
pub open spec fn bytes_text(bytes: Seq<u8>) -> Seq<char> {
    "["@ + bytes_items(bytes) + "]"@
}

/// The `Debug` text of a scalar: the variant's name and its `Option`.
pub open spec fn scalar_text(v: ScalarModel) -> Seq<char> {
    match v {
        ScalarModel::Boolean(x) => "Boolean("@ + option_text(x, |b: bool| bool_text(b)) + ")"@,
        ScalarModel::Int8(x) => "Int8("@ + option_text(x, |n: i8| int_text(n as int)) + ")"@,
        ScalarModel::Int16(x) => "Int16("@ + option_text(x, |n: i16| int_text(n as int)) + ")"@,
        ScalarModel::Int32(x) => "Int32("@ + option_text(x, |n: i32| int_text(n as int)) + ")"@,
        ScalarModel::Int64(x) => "Int64("@ + option_text(x, |n: i64| int_text(n as int)) + ")"@,
        ScalarModel::UInt8(x) => "UInt8("@ + option_text(x, |n: u8| int_text(n as int)) + ")"@,
        ScalarModel::UInt16(x) => "UInt16("@ + option_text(x, |n: u16| int_text(n as int)) + ")"@,
        ScalarModel::UInt32(x) => "UInt32("@ + option_text(x, |n: u32| int_text(n as int)) + ")"@,
        ScalarModel::UInt64(x) => "UInt64("@ + option_text(x, |n: u64| int_text(n as int)) + ")"@,
        ScalarModel::String(x) => "String("@ + option_text(x, |s: Seq<char>| str_debug(s)) + ")"@,
        ScalarModel::Binary(x) => "Binary("@ + option_text(x, |b: Seq<u8>| bytes_text(b)) + ")"@,
    }
}

/// The name of an operator's variant.
pub open spec fn op_text(op: BinaryOperator) -> Seq<char> {
    match op {
        BinaryOperator::Equals => "Equals"@,
        BinaryOperator::NotEquals => "NotEquals"@,
        BinaryOperator::LessThan => "LessThan"@,
        BinaryOperator::LessThanOrEqual => "LessThanOrEqual"@,
        BinaryOperator::GreaterThan => "GreaterThan"@,
        BinaryOperator::GreaterThanOrEqual => "GreaterThanOrEqual"@,
        BinaryOperator::And => "And"@,
        BinaryOperator::Or => "Or"@,
    }
}

/// The `Debug` text of an expression, as the derived `Debug` impls print it
/// with `{:?}`.
pub open spec fn expr_text(e: ExprModel) -> Seq<char>
    decreases e,
{
    match e {
        ExprModel::Literal(v) => "Literal("@ + scalar_text(v) + ")"@,
        ExprModel::Column(name) => "Column(Column { name: "@ + str_debug(name) + " })"@,
        ExprModel::Binary(l, r, op) => "BinaryExpr(BinaryExpr { left: "@ + expr_text(*l) + ", right: "@
            + expr_text(*r) + ", op: "@ + op_text(op) + " })"@,
        ExprModel::ScalarFunction(name, args) => "ScalarFunction(ScalarFunction { name: "@ + str_debug(name)
            + ", args: "@ + "["@ + exprs_items(args) + "]"@ + " })"@,
        ExprModel::AggregateFunction(name, args) => "AggregateFunction(AggregateFunction { name: "@
            + str_debug(name) + ", args: "@ + "["@ + exprs_items(args) + "]"@ + " })"@,
    }
}

/// The texts of `es`, separated by `", "`.
pub open spec fn exprs_items(es: Seq<ExprModel>) -> Seq<char>
    decreases es,
{
    if es.len() == 0 {
        Seq::empty()
    } else if es.len() == 1 {
        expr_text(es[0])
    } else {
        proof {
            assert(decreases_to!(es => es[es.len() - 1]));
        }
        exprs_items(es.drop_last()) + ", "@ + expr_text(es[es.len() - 1])
    }
}

/// The `Debug` text of a list of expressions: `[a, b]`.
pub open spec fn exprs_text(es: Seq<ExprModel>) -> Seq<char> {
    "["@ + exprs_items(es) + "]"@
}

/// `String::push`: the contract claims what its documentation says, that
/// `c` is appended to the end of `s`.
#[verifier::external_body]
fn push_char(s: &mut String, c: char)
    ensures
        final(s)@ == old(s)@.push(c),
{
    s.push(c);
}

/// `char::escape_debug`, its characters gathered into a `String`. The
/// contract names them `char_escape_debug(c)`, a function of `c` alone; which
/// characters std's Unicode tables escape is not restated here.
#[verifier::external_body]
fn escape_debug(c: char) -> (r: String)
    ensures
        r@ == char_escape_debug(c),
{
    c.escape_debug().collect()
}

/// The decimal digit `d` as a character.
fn digit(d: u8) -> (c: char)
    requires
        d < 10,
    ensures
        c == digit_char(d as nat),
{
    (d + 48) as char
}

/// The hexadecimal digit `d` as a character.
fn hex_digit(d: u8) -> (c: char)
    requires
        d < 16,
    ensures
        c == hex_char(d as nat),
{
    if d < 10 {
        (d + 48) as char
    } else {
        (d + 87) as char
    }
}

/// Appends the decimal text of `n`.
fn push_nat(out: &mut String, n: u64)
    ensures
        final(out)@ == old(out)@ + nat_text(n as nat),
    decreases n,
{
    let ghost start = out@;
    if n >= 10 {
        push_nat(out, n / 10);
    }
    let c = digit((n % 10) as u8);
    push_char(out, c);
    proof {
        if n >= 10 {
            assert(out@ =~= start + nat_text(n as nat));
        } else {
            assert(out@ =~= start + nat_text(n as nat));
        }
    }
}

/// Appends the decimal text of `v`, with a minus sign when it is negative.
fn push_int(out: &mut String, v: i128)
    requires
        i64::MIN <= v <= u64::MAX,
    ensures
        final(out)@ == old(out)@ + int_text(v as int),
{
    let ghost start = out@;
    if v < 0 {
        push_char(out, '-');
        push_nat(out, (-v) as u64);
        assert(out@ =~= start + int_text(v as int));
    } else {
        push_nat(out, v as u64);
    }
}

/// Appends how `c` shows inside a string's `Debug` text.
fn push_char_debug(out: &mut String, c: char)
    ensures
        final(out)@ == old(out)@ + char_debug(c),
{
    let n: u32 = c as u32;
    if c == '\0' {
        out.append("\\0");
    } else if c == '\t' {
        out.append("\\t");
    } else if c == '\r' {
        out.append("\\r");
    } else if c == '\n' {
        out.append("\\n");
    } else if c == '\\' {
        out.append("\\\\");
    } else if c == '"' {
        out.append("\\\"");
    } else if n < 32 || n == 127 {
        let ghost start = out@;
        out.append("\\u{");
        if n >= 16 {
            let h = hex_digit((n / 16) as u8);
            push_char(out, h);
        }
        let l = hex_digit((n % 16) as u8);
        push_char(out, l);
        out.append("}");
        proof {
            reveal_with_fuel(hex_text, 2);
            assert(out@ =~= start + char_debug(c));
        }
    } else if n < 128 {
        push_char(out, c);
    } else {
        let e = escape_debug(c);
        out.append(e.as_str());
    }
}

/// Appends the `Debug` text of the string `text`.
fn push_str_debug(out: &mut String, text: &str)
    ensures
        final(out)@ == old(out)@ + str_debug(text@),
{
    let ghost start = out@;
    out.append("\"");
    let n = text.unicode_len();
    let mut i: usize = 0;
    while i < n
        invariant
            n == text@.len(),
            i <= n,
            out@ == start + "\""@ + chars_debug(text@.take(i as int)),
        decreases n - i,
    {
        let c = text.get_char(i);
        push_char_debug(out, c);
        proof {
            let t = text@.take(i + 1);
            assert(t.drop_last() =~= text@.take(i as int));
            assert(t.last() == c);
            assert(out@ =~= start + "\""@ + chars_debug(t));
        }
        i = i + 1;
    }
    proof {
        assert(text@.take(n as int) =~= text@);
    }
    out.append("\"");
    assert(out@ =~= start + str_debug(text@));
}

/// Appends the `Debug` text of a byte vector.
fn push_bytes(out: &mut String, bytes: &Vec<u8>)
    ensures
        final(out)@ == old(out)@ + bytes_text(bytes@),
{
    let ghost start = out@;
    out.append("[");
    let mut i: usize = 0;
    while i < bytes.len()
        invariant
            i <= bytes@.len(),
            out@ == start + "["@ + bytes_items(bytes@.take(i as int)),
        decreases bytes@.len() - i,
    {
        let ghost before = out@;
        if i > 0 {
            out.append(", ");
        }
        push_int(out, bytes[i] as i128);
        proof {
            let t = bytes@.take(i + 1);
            assert(t.drop_last() =~= bytes@.take(i as int));
            assert(t.last() == bytes@[i as int]);
            assert(out@ =~= start + "["@ + bytes_items(t));
        }
        i = i + 1;
    }
    proof {
        assert(bytes@.take(bytes@.len() as int) =~= bytes@);
    }
    out.append("]");
    assert(out@ =~= start + bytes_text(bytes@));
}

/// Appends `Some(` and the decimal text of `v` and `)`.
fn push_some_int(out: &mut String, v: i128)
    requires
        i64::MIN <= v <= u64::MAX,
    ensures
        final(out)@ == old(out)@ + "Some("@ + int_text(v as int) + ")"@,
{
    let ghost start = out@;
    out.append("Some(");
    push_int(out, v);
    out.append(")");
    assert(out@ =~= start + "Some("@ + int_text(v as int) + ")"@);
}

/// Appends the `Debug` text of a scalar.
#[verifier::rlimit(40)]
fn push_scalar(out: &mut String, v: &ScalarValue)
    ensures
        final(out)@ == old(out)@ + scalar_text(v.model()),
{
    let ghost start = out@;
    match v {
        ScalarValue::Boolean(x) => {
            out.append("Boolean(");
            match x {
                Some(b) => {
                    out.append("Some(");
                    if *b {
                        out.append("true");
                    } else {
                        out.append("false");
                    }
                    out.append(")");
                },
                None => out.append("None"),
            }
        },
        ScalarValue::Int8(x) => {
            out.append("Int8(");
            match x {
                Some(n) => push_some_int(out, *n as i128),
                None => out.append("None"),
            }
        },
        ScalarValue::Int16(x) => {
            out.append("Int16(");
            match x {
                Some(n) => push_some_int(out, *n as i128),
                None => out.append("None"),
            }
        },
        ScalarValue::Int32(x) => {
            out.append("Int32(");
            match x {
                Some(n) => push_some_int(out, *n as i128),
                None => out.append("None"),
            }
        },
        ScalarValue::Int64(x) => {
            out.append("Int64(");
            match x {
                Some(n) => push_some_int(out, *n as i128),
                None => out.append("None"),
            }
        },
        ScalarValue::UInt8(x) => {
            out.append("UInt8(");
            match x {
                Some(n) => push_some_int(out, *n as i128),
                None => out.append("None"),
            }
        },
        ScalarValue::UInt16(x) => {
            out.append("UInt16(");
            match x {
                Some(n) => push_some_int(out, *n as i128),
                None => out.append("None"),
            }
        },
        ScalarValue::UInt32(x) => {
            out.append("UInt32(");
            match x {
                Some(n) => push_some_int(out, *n as i128),
                None => out.append("None"),
            }
        },
        ScalarValue::UInt64(x) => {
            out.append("UInt64(");
            match x {
                Some(n) => {
                    let m: u64 = **n;
                    push_some_int(out, m as i128);
                },
                None => out.append("None"),
            }
        },
        ScalarValue::String(x) => {
            out.append("String(");
            match x {
                Some(t) => {
                    out.append("Some(");
                    let t: &String = &**t;
                    push_str_debug(out, t.as_str());
                    out.append(")");
                },
                None => out.append("None"),
            }
        },
        ScalarValue::Binary(x) => {
            out.append("Binary(");
            match x {
                Some(b) => {
                    out.append("Some(");
                    let b: &Vec<u8> = &**b;
                    push_bytes(out, b);
                    out.append(")");
                },
                None => out.append("None"),
            }
        },
    }
    out.append(")");
    assert(out@ =~= start + scalar_text(v.model()));
}

/// Appends the name of an operator's variant.
fn op_name(op: BinaryOperator) -> (r: &'static str)
    ensures
        r@ == op_text(op),
{
    match op {
        BinaryOperator::Equals => "Equals",
        BinaryOperator::NotEquals => "NotEquals",
        BinaryOperator::LessThan => "LessThan",
        BinaryOperator::LessThanOrEqual => "LessThanOrEqual",
        BinaryOperator::GreaterThan => "GreaterThan",
        BinaryOperator::GreaterThanOrEqual => "GreaterThanOrEqual",
        BinaryOperator::And => "And",
        BinaryOperator::Or => "Or",
    }
}

impl Expr {
    /// Appends the `Debug` text of this expression.
    fn push_text(&self, out: &mut String)
        ensures
            final(out)@ == old(out)@ + expr_text(self.model()),
        decreases self, 1int,
    {
        let ghost start = out@;
        match self {
            Expr::Literal(v) => {
                out.append("Literal(");
                push_scalar(out, v);
                out.append(")");
            },
            Expr::Column(c) => {
                out.append("Column(Column { name: ");
                push_str_debug(out, c.name.as_str());
                out.append(" })");
            },
            Expr::BinaryExpr(b) => {
                out.append("BinaryExpr(BinaryExpr { left: ");
                b.left.push_text(out);
                out.append(", right: ");
                b.right.push_text(out);
                out.append(", op: ");
                out.append(op_name(b.op));
                out.append(" })");
            },
            Expr::ScalarFunction(f) => {
                out.append("ScalarFunction(ScalarFunction { name: ");
                push_str_debug(out, f.name.as_str());
                out.append(", args: ");
                push_exprs(&f.args, out);
                out.append(" })");
            },
            Expr::AggregateFunction(f) => {
                out.append("AggregateFunction(AggregateFunction { name: ");
                push_str_debug(out, f.name.as_str());
                out.append(", args: ");
                push_exprs(&f.args, out);
                out.append(" })");
            },
        }
        assert(out@ =~= start + expr_text(self.model()));
    }

    /// The text that `{:?}` prints for this expression.
    pub fn debug_text(&self) -> (r: String)
        ensures
            r@ == expr_text(self.model()),
    {
        let mut out = String::new();
        self.push_text(&mut out);
        assert(out@ =~= expr_text(self.model()));
        out
    }
}

/// Appends the `Debug` text of a list of expressions.
fn push_exprs(exprs: &Vec<Expr>, out: &mut String)
    ensures
        final(out)@ == old(out)@ + exprs_text(models_of(exprs@)),
    decreases exprs@, 0int,
{
    let ghost start = out@;
    let ghost ms = models_of(exprs@);
    proof {
        lemma_models_of(exprs@);
    }
    out.append("[");
    let mut i: usize = 0;
    while i < exprs.len()
        invariant
            i <= exprs@.len(),
            ms == models_of(exprs@),
            ms.len() == exprs@.len(),
            forall|k: int| 0 <= k < exprs@.len() ==> #[trigger] ms[k] == exprs@[k].model(),
            out@ == start + "["@ + exprs_items(ms.take(i as int)),
        decreases exprs@.len() - i,
    {
        if i > 0 {
            out.append(", ");
        }
        proof {
            assert(decreases_to!(exprs@ => exprs@[i as int]));
        }
        exprs[i].push_text(out);
        proof {
            let t = ms.take(i + 1);
            assert(t.drop_last() =~= ms.take(i as int));
            assert(t[t.len() - 1] == exprs@[i as int].model());
            assert(out@ =~= start + "["@ + exprs_items(t));
        }
        i = i + 1;
    }
    proof {
        assert(ms.take(ms.len() as int) =~= ms);
    }
    out.append("]");
    assert(out@ =~= start + exprs_text(ms));
}

/// The text that `{:?}` prints for a list of expressions.
pub fn exprs_debug_text(exprs: &Vec<Expr>) -> (r: String)
    ensures
        r@ == exprs_text(models_of(exprs@)),
{
    let mut out = String::new();
    push_exprs(exprs, &mut out);
    assert(out@ =~= exprs_text(models_of(exprs@)));
    out
}

} // verus!
