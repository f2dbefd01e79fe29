//! The SVG polygon tool: command-line arguments, the selection of a
//! `<polygon>` tag and its `points` attribute, the splitting of the point
//! list, and the printing of transformed points.
use crate::text::{
    chars_of, find_chars, find_from, has_prefix, has_prefix_exec, lemma_find_from,
    leading_space_count, push_decimal, push_signed_decimal, push_str, same_text, signed_decimal,
    decimal, slice_chars, string_from_chars, trim_start,
};
use vstd::prelude::*;

verus! {

//region Integer arguments

/// Whether `c` is an ASCII decimal digit.
pub open spec fn is_digit(c: char) -> bool {
    '0' <= c && c <= '9'
}

/// Why a text is not a `usize`.
#[derive(Clone, Copy, Debug, PartialEq, Eq, Structural)]
pub enum IndexFault {
    /// The text is empty.
    Empty,
    /// A character is not a decimal digit (or a lone `+`).
    InvalidDigit,
    /// The number does not fit in `usize`.
    Overflow,
}

/// Reading the digits `d` from the left: the number they write, or the
/// first fault met (a non-digit, or a value past `usize::MAX`).
pub open spec fn digits_parse(d: Seq<char>) -> Result<nat, IndexFault>
    decreases d.len(),
{
    if d.len() == 0 {
        Ok(0)
    } else {
        match digits_parse(d.drop_last()) {
            Err(f) => Err(f),
            Ok(v) => if !is_digit(d.last()) {
                Err(IndexFault::InvalidDigit)
            } else if v * 10 + (d.last() as nat - '0' as nat) > usize::MAX {
                Err(IndexFault::Overflow)
            } else {
                Ok((v * 10 + (d.last() as nat - '0' as nat)) as nat)
            },
        }
    }
}

/// What `usize::from_str` gives for `s`: an empty text is `Empty`; an
/// optional `+` is followed by decimal digits, read from the left.
pub open spec fn usize_parse(s: Seq<char>) -> Result<nat, IndexFault> {
    if s.len() == 0 {
        Err(IndexFault::Empty)
    } else {
        let digits = if s[0] == '+' {
            s.drop_first()
        } else {
            s
        };
        if digits.len() == 0 {
            Err(IndexFault::InvalidDigit)
        } else {
            digits_parse(digits)
        }
    }
}

/// The text describing a fault, as `ParseIntError` shows it.
pub open spec fn index_fault_text(f: IndexFault) -> Seq<char> {
    match f {
        IndexFault::Empty => "cannot parse integer from empty string"@,
        IndexFault::InvalidDigit => "invalid digit found in string"@,
        IndexFault::Overflow => "number too large to fit in target type"@,
    }
}

/// A fault met in a prefix is the fault of the whole text.
proof fn lemma_digits_fault_stays(d: Seq<char>, k: int)
    requires
        0 <= k <= d.len(),
        digits_parse(d.take(k)) is Err,
    ensures
        digits_parse(d) == digits_parse(d.take(k)),
    decreases d.len() - k,
{
    if k < d.len() {
        let p = d.drop_last();
        assert(p.take(k) =~= d.take(k));
        lemma_digits_fault_stays(p, k);
    } else {
        assert(d.take(k) =~= d);
    }
}

/// Parses `text` as `usize::from_str` does (see `usize_parse`).
pub fn parse_index(text: &str) -> (r: Result<usize, IndexFault>)
    ensures
        match usize_parse(text@) {
            Ok(v) => r matches Ok(n) && n as nat == v,
            Err(f) => r == Err::<usize, IndexFault>(f),
        },
{
    let cs = chars_of(text);
    if cs.len() == 0 {
        return Err(IndexFault::Empty);
    }
    let start: usize = if cs[0] == '+' {
        1
    } else {
        0
    };
    let ghost digits = if cs@[0] == '+' {
        cs@.drop_first()
    } else {
        cs@
    };
    assert(digits =~= cs@.subrange(start as int, cs@.len() as int));
    if start == cs.len() {
        return Err(IndexFault::InvalidDigit);
    }
    let mut v: usize = 0;
    let mut i: usize = start;
    while i < cs.len()
        invariant
            start <= i <= cs@.len(),
            cs@ == text@,
            digits == cs@.subrange(start as int, cs@.len() as int),
            digits.len() > 0,
            usize_parse(text@) == digits_parse(digits),
            digits_parse(digits.take(i - start)) == Ok::<nat, IndexFault>(v as nat),
        decreases cs@.len() - i,
    {
        let c = cs[i];
        let ghost k: int = i - start;
        proof {
            assert(digits.take(k + 1).drop_last() =~= digits.take(k));
            assert(digits.take(k + 1).last() == c);
        }
        if !('0' <= c && c <= '9') {
            proof {
                assert(digits_parse(digits.take(k + 1)) == Err::<nat, IndexFault>(
                    IndexFault::InvalidDigit,
                ));
                lemma_digits_fault_stays(digits, k + 1);
            }
            return Err(IndexFault::InvalidDigit);
        }
        let d: usize = (c as u32 - '0' as u32) as usize;
        assert(d as nat == c as nat - '0' as nat);
        match v.checked_mul(10) {
            None => {
                proof {
                    assert(digits_parse(digits.take(k + 1)) == Err::<nat, IndexFault>(
                        IndexFault::Overflow,
                    ));
                    lemma_digits_fault_stays(digits, k + 1);
                }
                return Err(IndexFault::Overflow);
            },
            Some(m) => match m.checked_add(d) {
                None => {
                    proof {
                        assert(digits_parse(digits.take(k + 1)) == Err::<nat, IndexFault>(
                            IndexFault::Overflow,
                        ));
                        lemma_digits_fault_stays(digits, k + 1);
                    }
                    return Err(IndexFault::Overflow);
                },
                Some(n) => {
                    v = n;
                },
            },
        }
        i = i + 1;
    }
    assert(digits.take(i - start) =~= digits);
    Ok(v)
}

/// The text describing `fault`.
pub fn index_fault_message(fault: IndexFault) -> (text: String)
    ensures
        text@ == index_fault_text(fault),
{
    match fault {
        IndexFault::Empty => "cannot parse integer from empty string".to_owned(),
        IndexFault::InvalidDigit => "invalid digit found in string".to_owned(),
        IndexFault::Overflow => "number too large to fit in target type".to_owned(),
    }
}

//endregion

//region Arguments

/// What the tool was asked to do.
pub struct Args {
    /// SVG file to read; standard input when absent or `-`.
    pub input: Option<String>,
    /// Select the polygon with this `id` attribute.
    pub polygon_id: Option<String>,
    /// Otherwise select the polygon at this position (from 0).
    pub polygon_index: usize,
}

/// The outcome of reading the arguments.
pub enum ArgsCommand {
    /// `-h` or `--help`: print the usage and stop.
    Help,
    /// Extract the selected polygon.
    Run(Args),
}

/// Faults in the arguments.
pub enum ArgsError {
    /// The option (`--id` or `--index`) has no value after it.
    MissingValue(String),
    /// The `--index` value is not a `usize`; the text and why.
    InvalidIndex { text: String, reason: String },
    /// An option that the tool does not know.
    UnknownOption(String),
    /// More than one input path.
    SecondInput,
}

/// Faults in the arguments, in view form.
pub enum ArgsFault {
    MissingValue(Seq<char>),
    InvalidIndex(Seq<char>, Seq<char>),
    UnknownOption(Seq<char>),
    SecondInput,
}

/// The outcome of reading the arguments, in view form.
pub enum ArgsOutcome {
    Help,
    Run(Option<Seq<char>>, Option<Seq<char>>, nat),
    Fault(ArgsFault),
}

/// Reading the arguments from position `i` on, with the settings read so far.
pub open spec fn parse_args_from(
    args: Seq<Seq<char>>,
    i: int,
    input: Option<Seq<char>>,
    id: Option<Seq<char>>,
    index: nat,
) -> ArgsOutcome
    decreases args.len() - i,
{
    if i < 0 || i >= args.len() {
        ArgsOutcome::Run(input, id, index)
    } else {
        let a = args[i];
        if a == "-h"@ || a == "--help"@ {
            ArgsOutcome::Help
        } else if a == "--id"@ {
            if i + 1 < args.len() {
                parse_args_from(args, i + 2, input, Some(args[i + 1]), index)
            } else {
                ArgsOutcome::Fault(ArgsFault::MissingValue("--id"@))
            }
        } else if a == "--index"@ {
            if i + 1 < args.len() {
                match usize_parse(args[i + 1]) {
                    Ok(v) => parse_args_from(args, i + 2, input, id, v),
                    Err(f) => ArgsOutcome::Fault(
                        ArgsFault::InvalidIndex(args[i + 1], index_fault_text(f)),
                    ),
                }
            } else {
                ArgsOutcome::Fault(ArgsFault::MissingValue("--index"@))
            }
        } else if has_prefix(a, "--id="@) {
            parse_args_from(args, i + 1, input, Some(a.skip("--id="@.len() as int)), index)
        } else if has_prefix(a, "--index="@) {
            let text = a.skip("--index="@.len() as int);
            match usize_parse(text) {
                Ok(v) => parse_args_from(args, i + 1, input, id, v),
                Err(f) => ArgsOutcome::Fault(ArgsFault::InvalidIndex(text, index_fault_text(f))),
            }
        } else if has_prefix(a, "-"@) && a != "-"@ {
            ArgsOutcome::Fault(ArgsFault::UnknownOption(a))
        } else if input is Some {
            ArgsOutcome::Fault(ArgsFault::SecondInput)
        } else {
            parse_args_from(args, i + 1, Some(a), id, index)
        }
    }
}

/// The views of a list of texts.
pub open spec fn texts_view(args: Seq<String>) -> Seq<Seq<char>> {
    Seq::new(args.len(), |i: int| args[i]@)
}

/// The view of an optional text.
pub open spec fn opt_view(t: Option<String>) -> Option<Seq<char>> {
    match t {
        Some(s) => Some(s@),
        None => None,
    }
}

/// The view of the outcome of reading the arguments.
pub open spec fn outcome_view(r: Result<ArgsCommand, ArgsError>) -> ArgsOutcome {
    match r {
        Ok(ArgsCommand::Help) => ArgsOutcome::Help,
        Ok(ArgsCommand::Run(a)) => ArgsOutcome::Run(
            opt_view(a.input),
            opt_view(a.polygon_id),
            a.polygon_index as nat,
        ),
        Err(ArgsError::MissingValue(o)) => ArgsOutcome::Fault(ArgsFault::MissingValue(o@)),
        Err(ArgsError::InvalidIndex { text, reason }) => ArgsOutcome::Fault(
            ArgsFault::InvalidIndex(text@, reason@),
        ),
        Err(ArgsError::UnknownOption(o)) => ArgsOutcome::Fault(ArgsFault::UnknownOption(o@)),
        Err(ArgsError::SecondInput) => ArgsOutcome::Fault(ArgsFault::SecondInput),
    }
}

/// The value following an option: `args[next]`, or the fault that the
/// option has no value.
pub fn take_value(args: &Vec<String>, next: usize, option: &str) -> (value: Result<String, ArgsError>)
    ensures
        next < args@.len() ==> (value matches Ok(v) && v == args@[next as int]),
        next >= args@.len() ==> (value matches Err(ArgsError::MissingValue(o)) && o@ == option@),
{
    if next < args.len() {
        Ok(args[next].clone())
    } else {
        let mut o = String::new();
        push_str(&mut o, option);
        assert(o@ =~= option@);
        Err(ArgsError::MissingValue(o))
    }
}

fn index_value(text: String) -> (r: Result<usize, ArgsError>)
    ensures
        match r {
            Ok(n) => usize_parse(text@) == Ok::<nat, IndexFault>(n as nat),
            Err(ArgsError::InvalidIndex { text: t, reason }) => usize_parse(text@) is Err && t@
                == text@ && reason@ == index_fault_text(usize_parse(text@)->Err_0),
            Err(_) => false,
        },
{
    match parse_index(text.as_str()) {
        Ok(n) => Ok(n),
        Err(fault) => {
            let reason = index_fault_message(fault);
            Err(ArgsError::InvalidIndex { text, reason })
        },
    }
}

impl Args {
    /// Reads the tool's arguments (without the program name).
    pub fn parse(args: &Vec<String>) -> (r: Result<ArgsCommand, ArgsError>)
        ensures
            outcome_view(r) == parse_args_from(texts_view(args@), 0, None, None, 0),
    {
        let ghost all = texts_view(args@);
        let mut input: Option<String> = None;
        let mut polygon_id: Option<String> = None;
        let mut polygon_index: usize = 0;
        let mut i: usize = 0;
        let id_eq = chars_of("--id=");
        let index_eq = chars_of("--index=");
        let dash = chars_of("-");
        while i < args.len()
            invariant
                all == texts_view(args@),
                i <= args@.len() + 1,
                id_eq@ == "--id="@,
                index_eq@ == "--index="@,
                dash@ == "-"@,
                parse_args_from(all, 0, None, None, 0) == parse_args_from(
                    all,
                    i as int,
                    opt_view(input),
                    opt_view(polygon_id),
                    polygon_index as nat,
                ),
            decreases args@.len() + 1 - i,
        {
            let arg = &args[i];
            assert(all[i as int] == arg@);
            if same_text(arg.as_str(), "-h") || same_text(arg.as_str(), "--help") {
                return Ok(ArgsCommand::Help);
            } else if same_text(arg.as_str(), "--id") {
                let value = take_value(args, i + 1, "--id")?;
                polygon_id = Some(value);
                i = i + 2;
            } else if same_text(arg.as_str(), "--index") {
                let value = take_value(args, i + 1, "--index")?;
                polygon_index = index_value(value)?;
                i = i + 2;
            } else {
                let cs = chars_of(arg.as_str());
                if has_prefix_exec(&cs, &id_eq) {
                    let rest = slice_chars(&cs, id_eq.len(), cs.len());
                    assert(rest@ =~= arg@.skip("--id="@.len() as int));
                    polygon_id = Some(string_from_chars(&rest));
                    i = i + 1;
                } else if has_prefix_exec(&cs, &index_eq) {
                    let rest = slice_chars(&cs, index_eq.len(), cs.len());
                    assert(rest@ =~= arg@.skip("--index="@.len() as int));
                    polygon_index = index_value(string_from_chars(&rest))?;
                    i = i + 1;
                } else if has_prefix_exec(&cs, &dash) && cs.len() != 1 {
                    proof {
                        reveal_strlit("-");
                    }
                    return Err(ArgsError::UnknownOption(arg.clone()));
                } else {
                    proof {
                        reveal_strlit("-");
                        if has_prefix(arg@, "-"@) {
                            assert(arg@.take(1) =~= arg@);
                        }
                    }
                    if input.is_some() {
                        return Err(ArgsError::SecondInput);
                    }
                    input = Some(arg.clone());
                    i = i + 1;
                }
            }
        }
        Ok(ArgsCommand::Run(Args { input, polygon_id, polygon_index }))
    }
}

impl ArgsError {
    /// The message printed for the fault.
    pub fn message(&self) -> (text: String)
        ensures
            text@ == match self {
                ArgsError::MissingValue(o) => o@ + " requires a value"@,
                ArgsError::InvalidIndex { text, reason } => "invalid --index: "@ + reason@,
                ArgsError::UnknownOption(o) => "unknown option: "@ + o@,
                ArgsError::SecondInput => "only one input svg path is supported"@,
            },
    {
        let mut text = String::new();
        match self {
            ArgsError::MissingValue(o) => {
                push_str(&mut text, o.as_str());
                push_str(&mut text, " requires a value");
            },
            ArgsError::InvalidIndex { text: _, reason } => {
                push_str(&mut text, "invalid --index: ");
                push_str(&mut text, reason.as_str());
            },
            ArgsError::UnknownOption(o) => {
                push_str(&mut text, "unknown option: ");
                push_str(&mut text, o.as_str());
            },
            ArgsError::SecondInput => {
                push_str(&mut text, "only one input svg path is supported");
            },
        }
        assert(text@ =~= match self {
            ArgsError::MissingValue(o) => o@ + " requires a value"@,
            ArgsError::InvalidIndex { text, reason } => "invalid --index: "@ + reason@,
            ArgsError::UnknownOption(o) => "unknown option: "@ + o@,
            ArgsError::SecondInput => "only one input svg path is supported"@,
        });
        text
    }
}

//endregion

//region Tags and attributes

/// The value of attribute `name` in `tag`: at the first occurrence of
/// `name`, after optional white space, `=` and optional white space, the
/// text between a pair of matching quotes (`"` or `'`).
pub open spec fn attribute_value_of(tag: Seq<char>, name: Seq<char>) -> Option<Seq<char>> {
    let name_start = find_from(tag, name, 0);
    if name_start < 0 {
        None
    } else {
        let after_name = trim_start(tag.skip(name_start + name.len()));
        if after_name.len() == 0 || after_name[0] != '=' {
            None
        } else {
            let after_equal = trim_start(after_name.drop_first());
            if after_equal.len() == 0 || (after_equal[0] != '"' && after_equal[0] != '\'') {
                None
            } else {
                let quote = after_equal[0];
                let after_quote = after_equal.drop_first();
                let end = find_from(after_quote, seq![quote], 0);
                if end < 0 {
                    None
                } else {
                    Some(after_quote.take(end))
                }
            }
        }
    }
}

fn skip_spaces(cs: &[char], from: usize) -> (k: usize)
    requires
        from <= cs@.len(),
    ensures
        from <= k <= cs@.len(),
        trim_start(cs@.skip(from as int)) == cs@.skip(k as int),
{
    let rest = slice_chars(cs, from, cs.len());
    let n = leading_space_count(&rest);
    assert(rest@.skip(n as int) =~= cs@.skip(from + n));
    from + n
}

fn attribute_value_chars(tag: &[char], name: &[char]) -> (value: Option<Vec<char>>)
    ensures
        match value {
            Some(v) => attribute_value_of(tag@, name@) == Some(v@),
            None => attribute_value_of(tag@, name@) is None,
        },
{
    let name_start = match find_chars(tag, name, 0) {
        Some(i) => i,
        None => {
            return None;
        },
    };
    proof {
        lemma_find_from(tag@, name@, 0);
        assert(tag@.len() == tag.len());
    }
    let after_name = skip_spaces(tag, name_start + name.len());
    if after_name >= tag.len() || tag[after_name] != '=' {
        return None;
    }
    assert(tag@.skip(after_name as int).drop_first() =~= tag@.skip(after_name + 1));
    let after_equal = skip_spaces(tag, after_name + 1);
    if after_equal >= tag.len() || (tag[after_equal] != '"' && tag[after_equal] != '\'') {
        return None;
    }
    let quote = tag[after_equal];
    let after_quote = slice_chars(tag, after_equal + 1, tag.len());
    assert(after_quote@ =~= tag@.skip(after_equal as int).drop_first());
    let quote_pat = vec![quote];
    assert(quote_pat@ =~= seq![quote]);
    match find_chars(&after_quote, &quote_pat, 0) {
        Some(end) => {
            proof {
                lemma_find_from(after_quote@, quote_pat@, 0);
            }
            let v = slice_chars(&after_quote, 0, end);
            assert(v@ =~= after_quote@.take(end as int));
            Some(v)
        },
        None => None,
    }
}

/// The value of attribute `name` in `tag`.
pub fn attribute_value(tag: &str, name: &str) -> (value: Option<String>)
    ensures
        match value {
            Some(v) => attribute_value_of(tag@, name@) == Some(v@),
            None => attribute_value_of(tag@, name@) is None,
        },
{
    let t = chars_of(tag);
    let n = chars_of(name);
    match attribute_value_chars(&t, &n) {
        Some(v) => Some(string_from_chars(&v)),
        None => None,
    }
}

/// The opening of a polygon tag.
pub open spec fn polygon_open() -> Seq<char> {
    seq!['<', 'p', 'o', 'l', 'y', 'g', 'o', 'n']
}

/// The message when no polygon matches.
pub open spec fn polygon_not_found(id: Option<Seq<char>>, index: nat) -> Seq<char> {
    match id {
        Some(i) => "no <polygon id=\""@ + i + "\"> found"@,
        None => "no <polygon> found at index "@ + decimal(index),
    }
}

/// The `points` attribute of the selected tag.
pub open spec fn points_of(tag: Seq<char>) -> Result<Seq<char>, Seq<char>> {
    match attribute_value_of(tag, "points"@) {
        Some(p) => Ok(p),
        None => Err("matched <polygon> tag has no points attribute"@),
    }
}

/// The search for the selected polygon from position `pos` of `svg`, with
/// `matched` polygons skipped so far: the polygon whose `id` attribute is
/// `id` when given, otherwise the one at position `index`.
pub open spec fn polygon_search(
    svg: Seq<char>,
    id: Option<Seq<char>>,
    index: nat,
    pos: int,
    matched: nat,
) -> Result<Seq<char>, Seq<char>>
    decreases svg.len() + 1 - pos,
{
    let start = find_from(svg, polygon_open(), pos);
    if start < 0 {
        Err(polygon_not_found(id, index))
    } else {
        let end = find_from(svg, seq!['>'], start);
        if end < 0 {
            Err("unterminated <polygon> tag"@)
        } else {
            let tag = svg.subrange(start, end + 1);
            let selected = match id {
                Some(i) => attribute_value_of(tag, "id"@) == Some(i),
                None => matched == index,
            };
            if selected {
                points_of(tag)
            } else {
                proof {
                    if pos >= 0 {
                        lemma_find_from(svg, polygon_open(), pos);
                        lemma_find_from(svg, seq!['>'], start);
                    }
                }
                polygon_search(
                    svg,
                    id,
                    index,
                    end + 1,
                    if id is None {
                        matched + 1
                    } else {
                        matched
                    },
                )
            }
        }
    }
}

fn polygon_not_found_message(id: Option<&str>, index: usize) -> (text: String)
    ensures
        text@ == polygon_not_found(
            match id {
                Some(i) => Some(i@),
                None => None,
            },
            index as nat,
        ),
{
    let mut text = String::new();
    match id {
        Some(i) => {
            push_str(&mut text, "no <polygon id=\"");
            push_str(&mut text, i);
            push_str(&mut text, "\"> found");
            assert(text@ =~= "no <polygon id=\""@ + i@ + "\"> found"@);
        },
        None => {
            push_str(&mut text, "no <polygon> found at index ");
            push_decimal(&mut text, index as u64);
        },
    }
    text
}

/// The `points` attribute text of the selected `<polygon>` tag of `svg`:
/// the first tag whose `id` attribute is `polygon_id` when one is given,
/// otherwise the tag at position `polygon_index`.
pub fn extract_polygon_points(svg: &str, polygon_id: Option<&str>, polygon_index: usize) -> (points:
    Result<String, String>)
    ensures
        ({
            let id = match polygon_id {
                Some(i) => Some(i@),
                None => None,
            };
            let expected = polygon_search(svg@, id, polygon_index as nat, 0, 0);
            match points {
                Ok(p) => expected == Ok::<Seq<char>, Seq<char>>(p@),
                Err(e) => expected == Err::<Seq<char>, Seq<char>>(e@),
            }
        }),
{
    let ghost id = match polygon_id {
        Some(i) => Some(i@),
        None => None,
    };
    let cs = chars_of(svg);
    let open = chars_of("<polygon");
    assert(open@ =~= polygon_open()) by {
        reveal_strlit("<polygon");
    }
    let close = vec!['>'];
    assert(close@ =~= seq!['>']);
    let id_name = chars_of("id");
    let points_name = chars_of("points");
    let mut pos: usize = 0;
    let mut matched: usize = 0;
    loop
        invariant
            cs@ == svg@,
            open@ == polygon_open(),
            close@ == seq!['>'],
            id_name@ == "id"@,
            points_name@ == "points"@,
            id == match polygon_id {
                Some(i) => Some(i@),
                None => None::<Seq<char>>,
            },
            pos <= cs@.len() + 1,
            matched <= polygon_index,
            polygon_search(svg@, id, polygon_index as nat, 0, 0) == polygon_search(
                svg@,
                id,
                polygon_index as nat,
                pos as int,
                matched as nat,
            ),
        decreases cs@.len() + 1 - pos,
    {
        let start = match find_chars(&cs, &open, pos) {
            Some(s) => s,
            None => {
                return Err(polygon_not_found_message(polygon_id, polygon_index));
            },
        };
        proof {
            lemma_find_from(cs@, open@, pos as int);
        }
        let end = match find_chars(&cs, &close, start) {
            Some(e) => e,
            None => {
                let mut text = String::new();
                push_str(&mut text, "unterminated <polygon> tag");
                return Err(text);
            },
        };
        proof {
            lemma_find_from(cs@, close@, start as int);
            assert(cs@.len() == cs.len());
        }
        let tag = slice_chars(&cs, start, end + 1);
        let selected = match polygon_id {
            Some(i) => {
                let wanted = chars_of(i);
                match attribute_value_chars(&tag, &id_name) {
                    Some(v) => crate::text::same_chars(&v, &wanted),
                    None => false,
                }
            },
            None => matched == polygon_index,
        };
        if selected {
            return match attribute_value_chars(&tag, &points_name) {
                Some(v) => Ok(string_from_chars(&v)),
                None => {
                    let mut text = String::new();
                    push_str(&mut text, "matched <polygon> tag has no points attribute");
                    Err(text)
                },
            };
        }
        if polygon_id.is_none() {
            matched = matched + 1;
        }
        pos = end + 1;
    }
}

//endregion

//region Point lists

/// Characters that separate the numbers of a point list.
pub open spec fn is_point_separator(c: char) -> bool {
    c == ',' || c == ' ' || c == '\t' || c == '\n' || c == '\r'
}

/// The non-empty pieces of `s` between separators, after the pieces `acc`
/// and the piece `cur` in progress.
pub open spec fn split_tokens(s: Seq<char>, cur: Seq<char>, acc: Seq<Seq<char>>) -> Seq<
    Seq<char>,
>
    decreases s.len(),
{
    if s.len() == 0 {
        if cur.len() > 0 {
            acc.push(cur)
        } else {
            acc
        }
    } else if is_point_separator(s[0]) {
        split_tokens(
            s.drop_first(),
            Seq::empty(),
            if cur.len() > 0 {
                acc.push(cur)
            } else {
                acc
            },
        )
    } else {
        split_tokens(s.drop_first(), cur.push(s[0]), acc)
    }
}

/// The numbers of a point list, as texts, in order.
pub open spec fn point_tokens_of(s: Seq<char>) -> Seq<Seq<char>> {
    split_tokens(s, Seq::empty(), Seq::empty())
}

/// Splits a `points` attribute into its number texts: the non-empty pieces
/// between commas, spaces, tabs and line breaks.
pub fn point_tokens(points: &str) -> (tokens: Vec<String>)
    ensures
        texts_view(tokens@) == point_tokens_of(points@),
{
    let cs = chars_of(points);
    let mut tokens: Vec<String> = Vec::new();
    let mut cur: Vec<char> = Vec::new();
    let mut i: usize = 0;
    assert(cs@.skip(0) =~= cs@);
    assert(texts_view(tokens@) =~= Seq::<Seq<char>>::empty());
    assert(cur@ =~= Seq::<char>::empty());
    while i < cs.len()
        invariant
            cs@ == points@,
            i <= cs@.len(),
            point_tokens_of(points@) == split_tokens(cs@.skip(i as int), cur@, texts_view(tokens@)),
        decreases cs@.len() - i,
    {
        let c = cs[i];
        assert(cs@.skip(i as int)[0] == c);
        assert(cs@.skip(i as int).drop_first() =~= cs@.skip(i + 1));
        if c == ',' || c == ' ' || c == '\t' || c == '\n' || c == '\r' {
            if cur.len() > 0 {
                let ghost before = tokens@;
                tokens.push(string_from_chars(&cur));
                assert(texts_view(tokens@) =~= texts_view(before).push(cur@));
            }
            cur = Vec::new();
            assert(cur@ =~= Seq::<char>::empty());
        } else {
            cur.push(c);
        }
        i = i + 1;
    }
    assert(cs@.skip(i as int) =~= Seq::<char>::empty());
    if cur.len() > 0 {
        let ghost before = tokens@;
        tokens.push(string_from_chars(&cur));
        assert(texts_view(tokens@) =~= texts_view(before).push(cur@));
    }
    tokens
}

/// The message when a point list has an odd count of numbers.
pub fn odd_point_count_message() -> (text: String)
    ensures
        text@ == "polygon points must contain an even number of values"@,
{
    let mut text = String::new();
    push_str(&mut text, "polygon points must contain an even number of values");
    text
}

//endregion

//region Printing

/// `[x,y]` for one point.
pub open spec fn point_text(p: [i32; 2]) -> Seq<char> {
    "["@ + signed_decimal(p[0] as int) + ","@ + signed_decimal(p[1] as int) + "]"@
}

/// The points' texts joined by commas.
pub open spec fn joined_points(ps: Seq<[i32; 2]>) -> Seq<char>
    decreases ps.len(),
{
    if ps.len() == 0 {
        Seq::empty()
    } else if ps.len() == 1 {
        point_text(ps[0])
    } else {
        joined_points(ps.drop_last()) + ","@ + point_text(ps.last())
    }
}

/// Prints points as a JSON-style list: `[[x,y],[x,y],...]`.
pub fn format_points(points: &[[i32; 2]]) -> (text: String)
    ensures
        text@ == "["@ + joined_points(points@) + "]"@,
{
    let mut body = String::new();
    let mut i: usize = 0;
    while i < points.len()
        invariant
            i <= points@.len(),
            body@ == joined_points(points@.take(i as int)),
        decreases points@.len() - i,
    {
        let ghost before = body@;
        if i > 0 {
            push_str(&mut body, ",");
        }
        let p = points[i];
        push_str(&mut body, "[");
        push_signed_decimal(&mut body, p[0] as i64);
        push_str(&mut body, ",");
        push_signed_decimal(&mut body, p[1] as i64);
        push_str(&mut body, "]");
        proof {
            let taken = points@.take(i + 1);
            assert(taken.drop_last() =~= points@.take(i as int));
            assert(taken.last() == p);
            if i == 0 {
                assert(taken.len() == 1);
                assert(body@ =~= point_text(p));
            } else {
                assert(body@ =~= before + ","@ + point_text(p));
            }
        }
        i = i + 1;
    }
    assert(points@.take(points@.len() as int) =~= points@);
    let mut text = String::new();
    push_str(&mut text, "[");
    push_str(&mut text, body.as_str());
    push_str(&mut text, "]");
    text
}

//endregion

} // verus!
