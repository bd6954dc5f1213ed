//! A JSON value model: numbers kept as sign, digits and exponent, objects as
//! ordered pairs, and the renderer that lays a value out — inline when the
//! flat lengths say it fits, indented over lines when not. The text parser
//! below it only walks characters and counts lines so far; reading a
//! document into a value is not implemented yet, and the functions that
//! would do it say so in their contracts.

use vstd::prelude::*;
use vstd::string::StringSliceAdditionalSpecFns;
use vstd::utf8::encode_utf8;

verus! {

/// What reading a value can fail with.
#[derive(Debug, Eq, PartialEq)]
pub enum JsonError {
    /// Not `true`, `false` or `null`, and not a number either.
    InvalidNumber,
    /// A quoted string that is not correctly escaped.
    InvalidString,
    /// The text ended inside a value.
    UnexpectedEOF,
    /// The bytes are not a valid text encoding.
    NotUnicode,
}

/// A number kept as written: sign, the digits of the coefficient, and the
/// sign and digits of the exponent.
#[derive(Debug, Eq, PartialEq)]
pub struct Number {
    pub is_positive: bool,
    pub coef: String,
    pub is_expo_positive: bool,
    pub expo: String,
}

/// How a number renders: the sign, then the first digit with the remaining
/// ones behind a point, then the exponent when there is one.
pub open spec fn number_format(n: Number) -> Seq<char> {
    let sign = if !n.is_positive {
        "-"@
    } else {
        Seq::<char>::empty()
    };
    let coef = if n.coef@.len() == 0 {
        "0"@
    } else if n.coef@.len() == 1 {
        n.coef@
    } else {
        n.coef@.take(1) + "."@ + n.coef@.skip(1)
    };
    let expo = if n.expo@.len() == 0 {
        Seq::<char>::empty()
    } else {
        "E"@ + (if !n.is_expo_positive {
            "-"@
        } else {
            Seq::<char>::empty()
        }) + n.expo@
    };
    sign + coef + expo
}

/// The length in bytes of a rendered character sequence.
pub open spec fn txt_len(s: Seq<char>) -> int {
    encode_utf8(s).len() as int
}

impl Number {
    /// The zero number: no digits yet.
    pub fn new() -> (r: Number)
        ensures
            r.is_positive,
            r.coef@.len() == 0,
            r.is_expo_positive,
            r.expo@.len() == 0,
    {
        Number {
            is_positive: true,
            coef: String::new(),
            is_expo_positive: true,
            expo: String::new(),
        }
    }

    /// The unsigned integer value; reading it out is not implemented yet.
    pub fn as_u64(&self) -> (r: Option<u64>)
        ensures
            r is None,
    {
        None
    }

    /// The signed integer value; reading it out is not implemented yet.
    pub fn as_i64(&self) -> (r: Option<i64>)
        ensures
            r is None,
    {
        None
    }

    /// Renders the number.
    pub fn format(&self) -> (r: String)
        ensures
            r@ == number_format(*self),
    {
        let mut ret_val = String::new();

        if !self.is_positive {
            ret_val.append("-");
        }

        let n = self.coef.as_str().unicode_len();
        if n == 0 {
            ret_val.append("0");
        } else if n == 1 {
            ret_val.append(self.coef.as_str());
        } else {
            ret_val.append(self.coef.as_str().substring_char(0, 1));
            ret_val.append(".");
            ret_val.append(self.coef.as_str().substring_char(1, n));
        }

        let en = self.expo.as_str().unicode_len();
        if en != 0 {
            ret_val.append("E");
            if !self.is_expo_positive {
                ret_val.append("-");
            }
            ret_val.append(self.expo.as_str());
        }
        proof {
            assert(ret_val@ =~= number_format(*self));
        }
        ret_val
    }

    /// The length in bytes of the rendered number.
    pub fn len(&self) -> (r: usize)
        requires
            txt_len(number_format(*self)) <= usize::MAX,
        ensures
            r == txt_len(number_format(*self)),
    {
        self.format().as_str().len()
    }
}

/// An ordered list of name/value pairs.
#[derive(Debug, Eq, PartialEq)]
pub struct Object {
    pub pairs: Vec<(String, Value)>,
}

/// A JSON value.
#[derive(Debug, Eq, PartialEq)]
pub enum Value {
    Object(Object),
    Array(Vec<Value>),
    Number(Number),
    Text(String),
    Boolean(bool),
    Null,
}

/// The length of one rendered pair: the quoted name, the separator, the
/// value, and the trailing comma-space.
pub open spec fn pair_flat_len(pair: (String, Value)) -> int
    decreases pair,
{
    2 + txt_len(pair.0@) + 2 + value_flat_len(pair.1) + 2
}

/// The summed lengths of rendered pairs.
pub open spec fn pairs_flat_len(pairs: Seq<(String, Value)>) -> int
    decreases pairs,
{
    if pairs.len() == 0 {
        0
    } else {
        pair_flat_len(pairs[0]) + pairs_flat_len(pairs.drop_first())
    }
}

/// The length of an object rendered on one line.
pub open spec fn object_flat_len(o: Object) -> int
    decreases o,
{
    2 + pairs_flat_len(o.pairs@)
}

/// The summed lengths of rendered array items.
pub open spec fn values_flat_len(items: Seq<Value>) -> int
    decreases items,
{
    if items.len() == 0 {
        0
    } else {
        value_flat_len(items[0]) + values_flat_len(items.drop_first())
    }
}

/// The length of a value rendered on one line, without any line break or
/// unnecessary space.
pub open spec fn value_flat_len(v: Value) -> int
    decreases v,
{
    match v {
        Value::Null => 4,
        Value::Boolean(b) => if b {
            4
        } else {
            5
        },
        Value::Number(n) => txt_len(number_format(n)),
        Value::Text(s) => txt_len(s@) + 2,
        Value::Object(o) => object_flat_len(o),
        Value::Array(items) => 2 + values_flat_len(items@),
    }
}

/// Every flat length is nonnegative.
pub proof fn lemma_value_flat_len_nonneg(v: Value)
    ensures
        value_flat_len(v) >= 0,
    decreases v,
{
    match v {
        Value::Object(o) => {
            lemma_pairs_flat_len_nonneg(o.pairs@);
        },
        Value::Array(items) => {
            lemma_values_flat_len_nonneg(items@);
        },
        _ => {},
    }
}

pub proof fn lemma_pairs_flat_len_nonneg(pairs: Seq<(String, Value)>)
    ensures
        pairs_flat_len(pairs) >= 0,
    decreases pairs,
{
    if pairs.len() == 0 {
    } else {
        lemma_value_flat_len_nonneg(pairs[0].1);
        lemma_pairs_flat_len_nonneg(pairs.drop_first());
        assert(pair_flat_len(pairs[0]) >= 0);
        assert(pairs_flat_len(pairs) == pair_flat_len(pairs[0]) + pairs_flat_len(
            pairs.drop_first(),
        ));
    }
}

pub proof fn lemma_values_flat_len_nonneg(items: Seq<Value>)
    ensures
        values_flat_len(items) >= 0,
    decreases items,
{
    if items.len() == 0 {
    } else {
        lemma_value_flat_len_nonneg(items[0]);
        lemma_values_flat_len_nonneg(items.drop_first());
    }
}

/// The indentation prefix of one nesting level. The table the formatter
/// draws from has ten entries whose widths step by four up to five levels
/// and then by four from twenty-six; the rendering keeps those widths.
pub open spec fn indent_of(depth: int) -> Seq<char> {
    if depth <= 0 {
        ""@
    } else if depth == 1 {
        "    "@
    } else if depth == 2 {
        "        "@
    } else if depth == 3 {
        "            "@
    } else if depth == 4 {
        "                "@
    } else if depth == 5 {
        "                    "@
    } else if depth == 6 {
        "                          "@
    } else if depth == 7 {
        "                              "@
    } else if depth == 8 {
        "                                  "@
    } else {
        "                                      "@
    }
}

/// The indentation prefix of one nesting level; only the table's ten
/// levels exist.
fn indent_str(depth: usize) -> (r: &'static str)
    requires
        depth <= 9,
    ensures
        r@ == indent_of(depth as int),
{
    match depth {
        0 => "",
        1 => "    ",
        2 => "        ",
        3 => "            ",
        4 => "                ",
        5 => "                    ",
        6 => "                          ",
        7 => "                              ",
        8 => "                                  ",
        _ => "                                      ",
    }
}

/// One hexadecimal digit, lowercase.
pub open spec fn hex_digit_of(d: int) -> char {
    if d == 0 {
        '0'
    } else if d == 1 {
        '1'
    } else if d == 2 {
        '2'
    } else if d == 3 {
        '3'
    } else if d == 4 {
        '4'
    } else if d == 5 {
        '5'
    } else if d == 6 {
        '6'
    } else if d == 7 {
        '7'
    } else if d == 8 {
        '8'
    } else if d == 9 {
        '9'
    } else if d == 10 {
        'a'
    } else if d == 11 {
        'b'
    } else if d == 12 {
        'c'
    } else if d == 13 {
        'd'
    } else if d == 14 {
        'e'
    } else {
        'f'
    }
}

fn hex_digit(d: u32) -> (r: char)
    requires
        d < 16,
    ensures
        r == hex_digit_of(d as int),
{
    match d {
        0 => '0',
        1 => '1',
        2 => '2',
        3 => '3',
        4 => '4',
        5 => '5',
        6 => '6',
        7 => '7',
        8 => '8',
        9 => '9',
        10 => 'a',
        11 => 'b',
        12 => 'c',
        13 => 'd',
        14 => 'e',
        _ => 'f',
    }
}

/// How one character renders inside a quoted string: quote, backslash and
/// the named control characters get a backslash escape, the other control
/// characters and the delete character a `\u{..}` escape in lowercase hex,
/// and everything else stands as itself.
pub open spec fn escape_char(c: char) -> Seq<char> {
    if c == '"' {
        "\\\""@
    } else if c == '\\' {
        "\\\\"@
    } else if c == '\n' {
        "\\n"@
    } else if c == '\r' {
        "\\r"@
    } else if c == '\t' {
        "\\t"@
    } else if c == '\0' {
        "\\0"@
    } else if (c as u32) < 32 || (c as u32) == 127 {
        let v = c as u32;
        "\\u{"@ + (if v < 16 {
            seq![hex_digit_of(v as int)]
        } else {
            seq![hex_digit_of(v as int / 16), hex_digit_of(v as int % 16)]
        }) + "}"@
    } else {
        seq![c]
    }
}

/// A whole character sequence, escaped.
pub open spec fn escape_text(s: Seq<char>) -> Seq<char>
    decreases s.len(),
{
    if s.len() == 0 {
        Seq::<char>::empty()
    } else {
        escape_text(s.drop_last()) + escape_char(s.last())
    }
}

/// A character sequence between quotes, escaped.
pub open spec fn quote_text(s: Seq<char>) -> Seq<char> {
    "\""@ + escape_text(s) + "\""@
}

/// Appends the escaped form of `s`.
fn push_escaped(out: &mut String, s: &str)
    ensures
        final(out)@ == old(out)@ + escape_text(s@),
{
    let n = s.unicode_len();
    let mut i: usize = 0;
    proof {
        assert(old(out)@ + escape_text(s@.take(0)) =~= out@);
    }
    while i < n
        invariant
            n == s@.len(),
            i <= n,
            out@ == old(out)@ + escape_text(s@.take(i as int)),
        decreases n - i,
    {
        proof {
            assert(s@.take(i + 1).drop_last() =~= s@.take(i as int));
            assert(s@.take(i + 1).last() == s@[i as int]);
        }
        let c = s.get_char(i);
        let ghost before = out@;
        if c == '"' {
            out.append("\\\"");
        } else if c == '\\' {
            out.append("\\\\");
        } else if c == '\n' {
            out.append("\\n");
        } else if c == '\r' {
            out.append("\\r");
        } else if c == '\t' {
            out.append("\\t");
        } else if c == '\0' {
            out.append("\\0");
        } else if (c as u32) < 32 || (c as u32) == 127 {
            out.append("\\u{");
            let v = c as u32;
            if v < 16 {
                crate::strutil::push_char(out, hex_digit(v));
            } else {
                crate::strutil::push_char(out, hex_digit(v / 16));
                crate::strutil::push_char(out, hex_digit(v % 16));
            }
            out.append("}");
        } else {
            crate::strutil::push_char(out, c);
        }
        proof {
            assert(out@ =~= before + escape_char(s@[i as int]));
            assert(out@ =~= old(out)@ + escape_text(s@.take(i + 1)));
        }
        i = i + 1;
    }
    proof {
        assert(s@.take(n as int) =~= s@);
    }
}

/// Appends `s` between quotes, escaped.
fn push_quoted(out: &mut String, s: &str)
    ensures
        final(out)@ == old(out)@ + quote_text(s@),
{
    out.append("\"");
    push_escaped(out, s);
    out.append("\"");
    proof {
        assert(out@ =~= old(out)@ + quote_text(s@));
    }
}

/// How a value renders at a nesting level: an indent prefix when not
/// inline, then the scalar's text, or the bracketed layout of an array —
/// laid out over lines unless it fits, with the two backspaces standing
/// where a trailing comma-space is taken back.
pub open spec fn value_format(v: Value, depth: int, inline: bool) -> Seq<char>
    decreases v,
{
    let indent = if inline {
        ""@
    } else {
        indent_of(depth)
    };
    match v {
        Value::Null => indent + "null"@,
        Value::Boolean(b) => indent + (if b {
            "true"@
        } else {
            "false"@
        }),
        Value::Number(n) => indent + number_format(n),
        Value::Text(s) => indent + quote_text(s@),
        Value::Object(o) => object_format(o, depth, inline),
        Value::Array(items) => if items@.len() == 0 {
            indent + "[ ]"@
        } else {
            let inl2 = inline || value_flat_len(v) + depth * 4 < 80;
            (if inl2 {
                ""@
            } else {
                "\n"@ + indent_of(depth)
            }) + "["@ + values_format(items@, depth + 1, inl2) + "\u{8}\u{8}"@ + (if inl2 {
                ""@
            } else {
                "\n"@ + indent_of(depth)
            }) + "]"@
        },
    }
}

/// The items of an array, each on its own line unless inline, each followed
/// by a comma-space.
pub open spec fn values_format(items: Seq<Value>, depth: int, inl: bool) -> Seq<char>
    decreases items,
{
    if items.len() == 0 {
        Seq::<char>::empty()
    } else {
        values_format(items.drop_last(), depth, inl) + (if inl {
            ""@
        } else {
            "\n"@
        }) + value_format(items.last(), depth, inl) + ", "@
    }
}

/// How an object renders: always its own indent and brace, then the pairs —
/// inline when the whole object or the single pair fits — and the brace
/// closed after taking the trailing comma-space back.
pub open spec fn object_format(o: Object, depth: int, inline: bool) -> Seq<char>
    decreases o,
{
    let head = indent_of(depth) + "{ "@;
    if o.pairs@.len() == 0 {
        head + "}"@
    } else {
        let inl2 = inline || object_flat_len(o) + depth * 4 < 80;
        head + pairs_format(o.pairs@, depth, inl2) + "\u{8}\u{8}"@ + (if inl2 {
            " "@
        } else {
            "\n"@ + indent_of(depth)
        }) + "}"@
    }
}

/// One pair: the quoted name, the separator, and the value — rendered from
/// level zero when it fits inline, else one level deeper.
pub open spec fn pair_format(pair: (String, Value), depth: int, inl2: bool) -> Seq<char>
    decreases pair,
{
    let inner = inl2 || pair_flat_len(pair) + depth * 4 + 2 < 80;
    (if inl2 {
        ""@
    } else {
        "\n"@ + indent_of(depth + 1)
    }) + quote_text(pair.0@) + ": "@ + value_format(
        pair.1,
        if inner {
            0
        } else {
            depth + 1
        },
        inner,
    ) + ", "@
}

/// The pairs of an object, in order.
pub open spec fn pairs_format(pairs: Seq<(String, Value)>, depth: int, inl2: bool) -> Seq<char>
    decreases pairs,
{
    if pairs.len() == 0 {
        Seq::<char>::empty()
    } else {
        pairs_format(pairs.drop_last(), depth, inl2) + pair_format(pairs.last(), depth, inl2)
    }
}

/// What rendering a value needs of its input: every indent the layout will
/// take lies within the ten-level table, and the length sums the inline
/// decisions compute stay within the machine's range. Inline rendering
/// writes no indent, so it asks nothing of the depth.
pub open spec fn value_fmt_ok(v: Value, depth: int, inline: bool) -> bool
    decreases v,
{
    &&& (inline || depth <= 9)
    &&& match v {
        Value::Object(o) => object_fmt_ok(o, depth, inline),
        Value::Array(items) => items@.len() > 0 ==> {
            &&& depth < usize::MAX
            &&& (!inline ==> value_flat_len(v) + depth * 4 <= usize::MAX)
            &&& values_fmt_ok(
                items@,
                depth + 1,
                inline || value_flat_len(v) + depth * 4 < 80,
            )
        },
        _ => true,
    }
}

pub open spec fn values_fmt_ok(items: Seq<Value>, depth: int, inl: bool) -> bool
    decreases items,
{
    forall|j: int| 0 <= j < items.len() ==> value_fmt_ok(#[trigger] items[j], depth, inl)
}

pub open spec fn object_fmt_ok(o: Object, depth: int, inline: bool) -> bool
    decreases o,
{
    &&& depth <= 9
    &&& (o.pairs@.len() > 0 ==> {
        &&& (!inline ==> object_flat_len(o) + depth * 4 <= usize::MAX)
        &&& ((inline || object_flat_len(o) + depth * 4 < 80) || depth <= 8)
        &&& pairs_fmt_ok(o.pairs@, depth, inline || object_flat_len(o) + depth * 4 < 80)
    })
}

pub open spec fn pair_fmt_ok(pair: (String, Value), depth: int, inl2: bool) -> bool
    decreases pair,
{
    &&& (!inl2 ==> pair_flat_len(pair) + depth * 4 + 2 <= usize::MAX)
    &&& value_fmt_ok(
        pair.1,
        if inl2 || pair_flat_len(pair) + depth * 4 + 2 < 80 {
            0
        } else {
            depth + 1
        },
        inl2 || pair_flat_len(pair) + depth * 4 + 2 < 80,
    )
}

pub open spec fn pairs_fmt_ok(pairs: Seq<(String, Value)>, depth: int, inl2: bool) -> bool
    decreases pairs,
{
    forall|j: int| 0 <= j < pairs.len() ==> pair_fmt_ok(#[trigger] pairs[j], depth, inl2)
}

impl Object {
    /// An empty object.
    pub fn new() -> (r: Object)
        ensures
            r.pairs@.len() == 0,
    {
        Object { pairs: Vec::new() }
    }

    /// The length of one rendered pair.
    fn pair_len(pair: &(String, Value)) -> (r: usize)
        requires
            pair_flat_len(*pair) <= usize::MAX,
        ensures
            r == pair_flat_len(*pair),
        decreases *pair,
    {
        proof {
            lemma_value_flat_len_nonneg(pair.1);
        }
        let value_len = pair.1.flat_len();
        2 + pair.0.as_str().len() + 2 + value_len + 2
    }

    /// The length of the object rendered on one line.
    pub fn flat_len(&self) -> (r: usize)
        requires
            object_flat_len(*self) <= usize::MAX,
        ensures
            r == object_flat_len(*self),
        decreases *self,
    {
        let mut total: usize = 2;
        let mut i: usize = 0;
        proof {
            assert(self.pairs@.skip(0) =~= self.pairs@);
        }
        while i < self.pairs.len()
            invariant
                i <= self.pairs@.len(),
                object_flat_len(*self) == 2 + pairs_flat_len(self.pairs@),
                object_flat_len(*self) <= usize::MAX,
                total + pairs_flat_len(self.pairs@.skip(i as int)) == object_flat_len(*self),
            decreases self.pairs@.len() - i,
        {
            proof {
                assert(self.pairs@.skip(i as int).drop_first() =~= self.pairs@.skip(i + 1));
                assert(self.pairs@.skip(i as int)[0] == self.pairs@[i as int]);
                assert(pairs_flat_len(self.pairs@.skip(i as int)) == pair_flat_len(
                    self.pairs@[i as int],
                ) + pairs_flat_len(self.pairs@.skip(i + 1)));
                lemma_value_flat_len_nonneg(self.pairs@[i as int].1);
                lemma_pairs_flat_len_nonneg(self.pairs@.skip(i + 1));
            }
            let piece = Self::pair_len(&self.pairs[i]);
            total = total + piece;
            i = i + 1;
        }
        proof {
            assert(self.pairs@.skip(self.pairs@.len() as int).len() == 0);
        }
        total
    }

    /// Renders the object at a nesting level, inline or laid out over
    /// lines, exactly as [`object_format`] lays it out.
    pub fn format(&self, depth: usize, inline: bool) -> (r: String)
        requires
            object_fmt_ok(*self, depth as int, inline),
        ensures
            r@ == object_format(*self, depth as int, inline),
        decreases *self,
    {
        let mut ret_val = String::new();
        ret_val.append(indent_str(depth));
        ret_val.append("{ ");
        let ghost head = indent_of(depth as int) + "{ "@;
        proof {
            assert(ret_val@ =~= head);
        }
        if self.pairs.len() == 0 {
            ret_val.append("}");
            proof {
                assert(ret_val@ =~= object_format(*self, depth as int, inline));
            }
            return ret_val;
        }
        let inl2 = if inline {
            true
        } else {
            proof {
                lemma_pairs_flat_len_nonneg(self.pairs@);
            }
            self.flat_len() + depth * 4 < 80
        };
        proof {
            assert(inl2 == (inline || object_flat_len(*self) + (depth as int) * 4 < 80));
            assert(ret_val@ =~= head + pairs_format(
                self.pairs@.take(0),
                depth as int,
                inl2,
            ));
        }
        let mut i: usize = 0;
        while i < self.pairs.len()
            invariant
                i <= self.pairs@.len(),
                self.pairs@.len() > 0,
                depth <= 9,
                inl2 == (inline || object_flat_len(*self) + (depth as int) * 4 < 80),
                inl2 || depth <= 8,
                pairs_fmt_ok(self.pairs@, depth as int, inl2),
                ret_val@ == head + pairs_format(self.pairs@.take(i as int), depth as int, inl2),
                head == indent_of(depth as int) + "{ "@,
            decreases self.pairs@.len() - i,
        {
            proof {
                assert(self.pairs@.take(i + 1).drop_last() =~= self.pairs@.take(i as int));
                assert(self.pairs@.take(i + 1).last() == self.pairs@[i as int]);
                assert(pair_fmt_ok(self.pairs@[i as int], depth as int, inl2));
            }
            let pair = &self.pairs[i];
            let ghost before = ret_val@;
            let inner_inline = if inl2 {
                true
            } else {
                proof {
                    lemma_value_flat_len_nonneg(pair.1);
                }
                Self::pair_len(pair) + depth * 4 + 2 < 80
            };
            proof {
                assert(inner_inline == (inl2 || pair_flat_len(self.pairs@[i as int]) + (
                depth as int) * 4 + 2 < 80));
            }
            if !inl2 {
                ret_val.append("\n");
                ret_val.append(indent_str(depth + 1));
            }
            push_quoted(&mut ret_val, pair.0.as_str());
            ret_val.append(": ");
            let piece = pair.1.format(
                if inner_inline {
                    0
                } else {
                    depth + 1
                },
                inner_inline,
            );
            ret_val.append(piece.as_str());
            ret_val.append(", ");
            proof {
                reveal_strlit("");
                assert(ret_val@ =~= before + pair_format(
                    self.pairs@[i as int],
                    depth as int,
                    inl2,
                ));
                assert(ret_val@ =~= head + pairs_format(
                    self.pairs@.take(i + 1),
                    depth as int,
                    inl2,
                ));
            }
            i = i + 1;
        }
        proof {
            assert(self.pairs@.take(self.pairs@.len() as int) =~= self.pairs@);
        }
        ret_val.append("\u{8}\u{8}");
        if inl2 {
            ret_val.append(" ");
        } else {
            ret_val.append("\n");
            ret_val.append(indent_str(depth));
        }
        ret_val.append("}");
        proof {
            reveal_strlit("");
            assert(ret_val@ =~= object_format(*self, depth as int, inline));
        }
        ret_val
    }
}

impl Value {
    /// The empty value.
    pub fn new() -> (r: Value)
        ensures
            r is Null,
    {
        Value::Null
    }

    /// The length of the value rendered on one line.
    pub fn flat_len(&self) -> (r: usize)
        requires
            value_flat_len(*self) <= usize::MAX,
        ensures
            r == value_flat_len(*self),
        decreases *self,
    {
        match self {
            Value::Null => 4,
            Value::Boolean(b) => if *b {
                4
            } else {
                5
            },
            Value::Number(n) => n.len(),
            Value::Text(s) => s.as_str().len() + 2,
            Value::Object(o) => o.flat_len(),
            Value::Array(items) => {
                let mut total: usize = 2;
                let mut i: usize = 0;
                proof {
                    assert(items@.skip(0) =~= items@);
                }
                while i < items.len()
                    invariant
                        i <= items@.len(),
                        self matches Value::Array(it) && it == items,
                        value_flat_len(*self) == 2 + values_flat_len(items@),
                        value_flat_len(*self) <= usize::MAX,
                        total + values_flat_len(items@.skip(i as int)) == value_flat_len(*self),
                    decreases items@.len() - i,
                {
                    proof {
                        assert(items@.skip(i as int).drop_first() =~= items@.skip(i + 1));
                        assert(items@.skip(i as int)[0] == items@[i as int]);
                        assert(values_flat_len(items@.skip(i as int)) == value_flat_len(
                            items@[i as int],
                        ) + values_flat_len(items@.skip(i + 1)));
                        lemma_value_flat_len_nonneg(items@[i as int]);
                        lemma_values_flat_len_nonneg(items@.skip(i + 1));
                    }
                    let piece = items[i].flat_len();
                    total = total + piece;
                    i = i + 1;
                }
                proof {
                    assert(items@.skip(items@.len() as int).len() == 0);
                }
                total
            },
        }
    }

    /// Renders the value at a nesting level, inline or laid out over lines,
    /// exactly as [`value_format`] lays it out.
    pub fn format(&self, depth: usize, inline: bool) -> (r: String)
        requires
            value_fmt_ok(*self, depth as int, inline),
        ensures
            r@ == value_format(*self, depth as int, inline),
        decreases *self,
    {
        let mut ret_val = String::new();
        let indent: &'static str = if inline {
            ""
        } else {
            indent_str(depth)
        };
        match self {
            Value::Null => {
                ret_val.append(indent);
                ret_val.append("null");
                proof {
                    assert(ret_val@ =~= value_format(*self, depth as int, inline));
                }
                ret_val
            },
            Value::Boolean(b) => {
                ret_val.append(indent);
                if *b {
                    ret_val.append("true");
                } else {
                    ret_val.append("false");
                }
                proof {
                    assert(ret_val@ =~= value_format(*self, depth as int, inline));
                }
                ret_val
            },
            Value::Number(n) => {
                ret_val.append(indent);
                let rendered = n.format();
                ret_val.append(rendered.as_str());
                proof {
                    assert(ret_val@ =~= value_format(*self, depth as int, inline));
                }
                ret_val
            },
            Value::Text(s) => {
                ret_val.append(indent);
                push_quoted(&mut ret_val, s.as_str());
                proof {
                    assert(ret_val@ =~= value_format(*self, depth as int, inline));
                }
                ret_val
            },
            Value::Object(o) => o.format(depth, inline),
            Value::Array(items) => {
                if items.len() == 0 {
                    ret_val.append(indent);
                    ret_val.append("[ ]");
                    proof {
                        assert(ret_val@ =~= value_format(*self, depth as int, inline));
                    }
                    return ret_val;
                }
                let inl2 = if inline {
                    true
                } else {
                    proof {
                        lemma_values_flat_len_nonneg(items@);
                    }
                    self.flat_len() + depth * 4 < 80
                };
                proof {
                    assert(inl2 == (inline || value_flat_len(*self) + (depth as int) * 4 < 80));
                }
                if !inl2 {
                    ret_val.append("\n");
                    ret_val.append(indent_str(depth));
                }
                ret_val.append("[");
                let ghost prefix = ret_val@;
                proof {
                    reveal_strlit("");
                    assert(ret_val@ =~= prefix + values_format(
                        items@.take(0),
                        depth as int + 1,
                        inl2,
                    ));
                    assert(prefix =~= (if inl2 {
                        ""@
                    } else {
                        "\n"@ + indent_of(depth as int)
                    }) + "["@);
                }
                let mut i: usize = 0;
                while i < items.len()
                    invariant
                        i <= items@.len(),
                        self matches Value::Array(it) && it == items,
                        depth < usize::MAX,
                        inl2 || depth <= 9,
                        inl2 == (inline || value_flat_len(*self) + (depth as int) * 4 < 80),
                        values_fmt_ok(items@, depth as int + 1, inl2),
                        ret_val@ == prefix + values_format(
                            items@.take(i as int),
                            depth as int + 1,
                            inl2,
                        ),
                        prefix == (if inl2 {
                            ""@
                        } else {
                            "\n"@ + indent_of(depth as int)
                        }) + "["@,
                    decreases items@.len() - i,
                {
                    proof {
                        assert(items@.take(i + 1).drop_last() =~= items@.take(i as int));
                        assert(items@.take(i + 1).last() == items@[i as int]);
                        assert(value_fmt_ok(items@[i as int], depth as int + 1, inl2));
                    }
                    if !inl2 {
                        ret_val.append("\n");
                    }
                    let piece = items[i].format(depth + 1, inl2);
                    ret_val.append(piece.as_str());
                    ret_val.append(", ");
                    proof {
                        reveal_strlit("");
                        assert(ret_val@ =~= prefix + values_format(
                            items@.take(i + 1),
                            depth as int + 1,
                            inl2,
                        ));
                    }
                    i = i + 1;
                }
                proof {
                    assert(items@.take(items@.len() as int) =~= items@);
                }
                ret_val.append("\u{8}\u{8}");
                if !inl2 {
                    ret_val.append("\n");
                    ret_val.append(indent_str(depth));
                }
                ret_val.append("]");
                proof {
                    reveal_strlit("");
                    assert(ret_val@ =~= value_format(*self, depth as int, inline));
                }
                ret_val
            },
        }
    }

    /// Reads a value out of its text; not implemented yet, so every text
    /// gives the empty value.
    pub fn from_string(text: String) -> (r: Value)
        ensures
            r is Null,
    {
        Value::Null
    }
}

/// Reads the next value; not implemented yet, so the empty value comes back.
fn expect_value() -> (r: Result<Value, JsonError>)
    ensures
        r matches Ok(v) && v is Null,
{
    Ok(Value::Null)
}

/// Reads a document into a value; the reading is not implemented yet, so
/// every text gives the empty value.
pub fn from_string(text: String) -> (r: Result<Value, JsonError>)
    ensures
        r matches Ok(v) && v is Null,
{
    expect_value()
}

/// Renders an object to text; not implemented yet, so nothing comes back.
pub fn to_string(object: Object) -> (r: String)
    ensures
        r@.len() == 0,
{
    String::new()
}

/// Walks a text character by character, translating line ends and keeping
/// the row and column of the next character.
#[derive(Debug, Eq, PartialEq)]
pub struct TextParser {
    origin: String,
    /// The index of the next character.
    position: usize,
    /// The row of the next character, starting at 1.
    row: i32,
    /// The column of the next character.
    column: i32,
}

impl TextParser {
    /// The text being walked.
    pub closed spec fn text(&self) -> Seq<char> {
        self.origin@
    }

    /// The index of the next character.
    pub closed spec fn at(&self) -> int {
        self.position as int
    }

    /// The row of the next character.
    pub closed spec fn row_at(&self) -> int {
        self.row as int
    }

    /// The column of the next character.
    pub closed spec fn column_at(&self) -> int {
        self.column as int
    }

    /// A walker at the start of the text.
    pub fn new(origin: String) -> (r: TextParser)
        ensures
            r.text() == origin@,
            r.at() == 0,
            r.row_at() == 1,
            r.column_at() == 0,
    {
        TextParser { origin, position: 0, row: 1, column: 0 }
    }

    /// The next character, with a lone line feed and a carriage-return line
    /// feed pair both delivered as one line feed. Row and column track the
    /// character after it; they stop counting at their numeric limit.
    pub fn next_char(&mut self) -> (r: Option<char>)
        ensures
            final(self).text() == old(self).text(),
            ({
                let t = old(self).text();
                let p = old(self).at();
                if p >= t.len() {
                    r is None && final(self).at() == p && final(self).row_at() == old(
                        self,
                    ).row_at() && final(self).column_at() == old(self).column_at()
                } else if t[p] == '\r' && p + 1 < t.len() && t[p + 1] == '\n' {
                    r == Some('\n') && final(self).at() == p + 2 && final(self).column_at() == 0
                        && final(self).row_at() == (if old(self).row_at() < i32::MAX {
                        old(self).row_at() + 1
                    } else {
                        old(self).row_at()
                    })
                } else if t[p] == '\n' {
                    r == Some('\n') && final(self).at() == p + 1 && final(self).column_at() == 0
                        && final(self).row_at() == (if old(self).row_at() < i32::MAX {
                        old(self).row_at() + 1
                    } else {
                        old(self).row_at()
                    })
                } else {
                    r == Some(t[p]) && final(self).at() == p + 1 && final(self).row_at() == old(
                        self,
                    ).row_at() && final(self).column_at() == (if old(self).column_at()
                        < i32::MAX {
                        old(self).column_at() + 1
                    } else {
                        old(self).column_at()
                    })
                }
            }),
    {
        let n = self.origin.as_str().unicode_len();
        if self.position >= n {
            return None;
        }
        let next1 = self.origin.as_str().get_char(self.position);
        if next1 == '\r' && self.position + 1 < n && self.origin.as_str().get_char(
            self.position + 1,
        ) == '\n' {
            self.position = self.position + 2;
            if self.row < i32::MAX {
                self.row = self.row + 1;
            }
            self.column = 0;
            Some('\n')
        } else if next1 == '\n' {
            self.position = self.position + 1;
            if self.row < i32::MAX {
                self.row = self.row + 1;
            }
            self.column = 0;
            Some('\n')
        } else {
            self.position = self.position + 1;
            if self.column < i32::MAX {
                self.column = self.column + 1;
            }
            Some(next1)
        }
    }
}

} // verus!
