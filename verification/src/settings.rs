//! Persisted volume defaults: a `name=volume` text file, one channel per
//! line.  Writing the file and reading it back are done outside this
//! crate; this module owns the text format itself.

use vstd::prelude::*;
use vstd::string::{StrSliceExecFns, StringExecFns};

use crate::tailer::{
    closed_lines, lemma_split_lines_append, lemma_split_lines_no_newline, open_rest,
    split_lines_rec, GamelogCursor,
};

verus! {

/// The decimal value of an ASCII digit, or -1 for any other character.
pub open spec fn digit_value(c: char) -> int {
    if 48 <= c as u32 <= 57 {
        c as u32 - 48
    } else {
        -1
    }
}

/// The ASCII digit for a value between 0 and 9.
pub open spec fn digit_char(d: int) -> char {
    if d == 0 {
        '0'
    } else if d == 1 {
        '1'
    } else if d == 2 {
        '2'
    } else if d == 3 {
        '3'
    } else if d == 4 {
        '4'
    } else if d == 5 {
        '5'
    } else if d == 6 {
        '6'
    } else if d == 7 {
        '7'
    } else if d == 8 {
        '8'
    } else {
        '9'
    }
}

/// The decimal digits of a non-negative value, most significant first.
pub open spec fn decimal_digits(v: int) -> Seq<char>
    decreases v,
{
    if v < 0 {
        Seq::empty()
    } else if v < 10 {
        seq![digit_char(v)]
    } else {
        decimal_digits(v / 10).push(digit_char(v % 10))
    }
}

/// The numeric value of decimal digits, most significant first.
pub open spec fn digits_value(s: Seq<char>) -> int
    decreases s.len(),
{
    if s.len() == 0 {
        0
    } else {
        digits_value(s.drop_last()) * 10 + digit_value(s.last())
    }
}

/// Whether every character of `s` is a decimal digit.
pub open spec fn all_digits(s: Seq<char>) -> bool {
    forall|i: int| 0 <= i < s.len() ==> digit_value(#[trigger] s[i]) >= 0
}

/// The index of the first '=' in `line`, or -1 when there is none.
pub open spec fn eq_index(line: Seq<char>) -> int
    decreases line.len(),
{
    if line.len() == 0 {
        -1
    } else if line[0] == '=' {
        0
    } else {
        let r = eq_index(line.drop_first());
        if r == -1 {
            -1
        } else {
            r + 1
        }
    }
}

/// `eq_index` finds exactly the first '='.
pub proof fn lemma_eq_index_correct(line: Seq<char>)
    ensures
        eq_index(line) == -1 ==> forall|j: int| 0 <= j < line.len() ==> line[j] != '=',
        eq_index(line) != -1 ==> 0 <= eq_index(line) < line.len() && line[eq_index(line)] == '='
            && forall|j: int| 0 <= j < eq_index(line) ==> line[j] != '=',
    decreases line.len(),
{
    if line.len() == 0 {
    } else if line[0] == '=' {
    } else {
        lemma_eq_index_correct(line.drop_first());
        assert forall|j: int| 1 <= j < line.len() implies line.drop_first()[j - 1] == line[j] by {}
    }
}

/// From an '=' with none before it, the index is pinned.
pub proof fn lemma_eq_index_unique(line: Seq<char>, e: int)
    requires
        0 <= e < line.len(),
        line[e] == '=',
        forall|j: int| 0 <= j < e ==> line[j] != '=',
    ensures
        eq_index(line) == e,
{
    lemma_eq_index_correct(line);
    if eq_index(line) == -1 {
        assert(line[e] != '=');
    } else {
        let k = eq_index(line);
        if k < e {
            assert(line[k] != '=');
        } else if e < k {
            assert(line[e] != '=');
        }
    }
}

/// One parsed settings line: the name before the first '=' and the volume
/// after it, clamped to 100.  `None` for a line without '=', with an empty
/// name, or whose value part is not one to three decimal digits.
pub open spec fn parse_settings_line(line: Seq<char>) -> Option<(Seq<char>, u8)> {
    let e = eq_index(line);
    if e <= 0 {
        None
    } else {
        let digits = line.subrange(e + 1, line.len() as int);
        if digits.len() < 1 || digits.len() > 3 || !all_digits(digits) {
            None
        } else {
            let v = digits_value(digits);
            Some((line.subrange(0, e), (if v > 100 { 100int } else { v }) as u8))
        }
    }
}

/// The pairs parsed from the given lines, in order; unparsable lines are
/// skipped.
pub open spec fn parsed_pairs(lines: Seq<Seq<char>>) -> Seq<(Seq<char>, u8)>
    decreases lines.len(),
{
    if lines.len() == 0 {
        Seq::empty()
    } else {
        parsed_pairs(lines.drop_last()) + match parse_settings_line(lines.last()) {
            Some(p) => seq![p],
            None => Seq::empty(),
        }
    }
}

/// The lines of a settings text: every newline-closed line, and the text
/// after the last newline if any.
pub open spec fn text_lines(chars: Seq<char>) -> Seq<Seq<char>> {
    closed_lines(chars, Seq::empty()) + if open_rest(chars, Seq::empty()).len() > 0 {
        seq![open_rest(chars, Seq::empty())]
    } else {
        Seq::empty()
    }
}

/// The settings line written for one pair, without its closing newline.
pub open spec fn settings_line(p: (String, u8)) -> Seq<char> {
    p.0@ + seq!['='] + decimal_digits(p.1 as int)
}

/// The settings lines written for the given pairs, in order.
pub open spec fn settings_lines_of(pairs: Seq<(String, u8)>) -> Seq<Seq<char>> {
    pairs.map_values(|p: (String, u8)| settings_line(p))
}

/// The name text and volume of each pair, in order.
pub open spec fn pair_views(pairs: Seq<(String, u8)>) -> Seq<(Seq<char>, u8)> {
    pairs.map_values(|p: (String, u8)| (p.0@, p.1))
}

/// A pair the persisted format can carry faithfully: a non-empty name free
/// of '=' and newline, and a volume in range.
pub open spec fn persistable_pair(p: (String, u8)) -> bool {
    &&& p.0@.len() > 0
    &&& forall|i: int| 0 <= i < p.0@.len() ==> p.0@[i] != '=' && #[trigger] p.0@[i] != '\n'
    &&& p.1 <= 100
}

/// The whole persisted text for the given pairs: one `name=volume` line
/// each, newline-terminated.
pub open spec fn settings_text(pairs: Seq<(String, u8)>) -> Seq<char>
    decreases pairs.len(),
{
    if pairs.len() == 0 {
        Seq::empty()
    } else {
        settings_text(pairs.drop_last()) + settings_line(pairs.last()) + seq!['\n']
    }
}

/// Digit characters carry their digit values.
proof fn lemma_digit_char_value(d: int)
    requires
        0 <= d <= 9,
    ensures
        digit_value(digit_char(d)) == d,
{
}

/// The digits of a value are decimal digits throughout.
proof fn lemma_decimal_digits_all_digits(v: int)
    requires
        0 <= v,
    ensures
        all_digits(decimal_digits(v)),
    decreases v,
{
    if v < 10 {
        lemma_digit_char_value(v);
        assert(decimal_digits(v)[0] == digit_char(v));
    } else {
        lemma_decimal_digits_all_digits(v / 10);
        lemma_digit_char_value(v % 10);
        let s = decimal_digits(v / 10);
        let c = digit_char(v % 10);
        assert forall|i: int| 0 <= i < s.push(c).len() implies digit_value(
            #[trigger] s.push(c)[i],
        ) >= 0 by {
            if i < s.len() {
                assert(s.push(c)[i] == s[i]);
            } else {
                assert(s.push(c)[i] == c);
            }
        }
    }
}

/// Reading the digits of a value back yields the value.
proof fn lemma_digits_value_inverse(v: int)
    requires
        0 <= v,
    ensures
        digits_value(decimal_digits(v)) == v,
    decreases v,
{
    if v < 10 {
        lemma_digit_char_value(v);
        let s = seq![digit_char(v)];
        assert(s.drop_last() =~= Seq::<char>::empty());
        assert(digits_value(s) == digits_value(s.drop_last()) * 10 + digit_value(s.last()));
    } else {
        lemma_digits_value_inverse(v / 10);
        lemma_digit_char_value(v % 10);
        let s = decimal_digits(v / 10);
        let c = digit_char(v % 10);
        assert(s.push(c).drop_last() =~= s);
        assert(s.push(c).last() == c);
        assert(digits_value(s.push(c)) == digits_value(s) * 10 + digit_value(c));
    }
}

/// For volumes up to 100, the digit text is one to three characters.
proof fn lemma_decimal_digits_len(v: int)
    requires
        0 <= v <= 100,
    ensures
        1 <= decimal_digits(v).len() <= 3,
{
    if v < 10 {
    } else if v < 100 {
        assert(decimal_digits(v / 10) =~= seq![digit_char(v / 10)]);
    } else {
        assert(decimal_digits(1) =~= seq![digit_char(1)]);
        assert(decimal_digits(10) =~= decimal_digits(1).push(digit_char(0)));
        assert(decimal_digits(100) =~= decimal_digits(10).push(digit_char(0)));
    }
}

/// Law: the persisted format round-trips line by line.  A settings line
/// written for a non-empty channel name free of '=' and a volume not above
/// 100 parses back to exactly that name and volume.
pub proof fn lemma_settings_line_round_trip(name: Seq<char>, v: u8)
    requires
        name.len() > 0,
        forall|i: int| 0 <= i < name.len() ==> name[i] != '=',
        v <= 100,
    ensures
        parse_settings_line(name + seq!['='] + decimal_digits(v as int)) == Some((name, v)),
{
    let digits = decimal_digits(v as int);
    let line = name + seq!['='] + digits;
    let e = name.len() as int;
    assert(line[e] == '=');
    assert forall|j: int| 0 <= j < e implies line[j] != '=' by {
        assert(line[j] == name[j]);
    }
    lemma_eq_index_unique(line, e);
    lemma_decimal_digits_all_digits(v as int);
    lemma_digits_value_inverse(v as int);
    lemma_decimal_digits_len(v as int);
    assert(line.subrange(0, e) =~= name);
    assert(line.subrange(e + 1, line.len() as int) =~= digits);
}

/// A settings line written for a persistable pair holds no newline.
proof fn lemma_settings_line_no_newline(p: (String, u8))
    requires
        persistable_pair(p),
    ensures
        forall|i: int| 0 <= i < settings_line(p).len() ==> #[trigger] settings_line(p)[i] != '\n',
{
    lemma_decimal_digits_all_digits(p.1 as int);
    let line = settings_line(p);
    let name = p.0@;
    let digits = decimal_digits(p.1 as int);
    assert forall|i: int| 0 <= i < line.len() implies #[trigger] line[i] != '\n' by {
        if i < name.len() {
            assert(line[i] == name[i]);
        } else if i == name.len() {
            assert(line[i] == '=');
        } else {
            assert(line[i] == digits[i - name.len() - 1]);
            assert(digit_value(digits[i - name.len() - 1]) >= 0);
        }
    }
}

/// The persisted text splits back into exactly its lines, with no partial
/// line left over.
proof fn lemma_settings_text_lines(pairs: Seq<(String, u8)>)
    requires
        forall|i: int| 0 <= i < pairs.len() ==> persistable_pair(#[trigger] pairs[i]),
    ensures
        closed_lines(settings_text(pairs), Seq::empty()) == settings_lines_of(pairs),
        open_rest(settings_text(pairs), Seq::empty()).len() == 0,
    decreases pairs.len(),
{
    if pairs.len() == 0 {
        assert(settings_lines_of(pairs) =~= Seq::<Seq<char>>::empty());
    } else {
        let front = pairs.drop_last();
        assert forall|i: int| 0 <= i < front.len() implies persistable_pair(
            #[trigger] front[i],
        ) by {
            assert(front[i] == pairs[i]);
        }
        lemma_settings_text_lines(front);
        let t1 = settings_text(front);
        let last = pairs.last();
        let line = settings_line(last);
        let full = settings_text(pairs);
        assert(full =~= t1 + (line + seq!['\n']));
        lemma_split_lines_append(t1, line + seq!['\n'], Seq::empty(), Seq::empty());
        let st1 = split_lines_rec(t1, Seq::empty(), Seq::empty());
        assert(st1.1 =~= Seq::<char>::empty());
        lemma_split_lines_append(line, seq!['\n'], st1.1, st1.0);
        lemma_settings_line_no_newline(last);
        lemma_split_lines_no_newline(line, st1.1, st1.0);
        let st2 = split_lines_rec(line, st1.1, st1.0);
        assert(st2.1 =~= line);
        assert(seq!['\n'][0] == '\n');
        assert(seq!['\n'].drop_first() =~= Seq::<char>::empty());
        assert(split_lines_rec(seq!['\n'], st2.1, st2.0) == split_lines_rec(
            Seq::<char>::empty(),
            Seq::empty(),
            st2.0.push(st2.1),
        ));
        assert(settings_lines_of(pairs) =~= settings_lines_of(front).push(line));
        assert(closed_lines(full, Seq::empty()) =~= settings_lines_of(pairs));
    }
}

/// Parsing the lines written for persistable pairs recovers the pairs.
proof fn lemma_parsed_settings_lines(pairs: Seq<(String, u8)>)
    requires
        forall|i: int| 0 <= i < pairs.len() ==> persistable_pair(#[trigger] pairs[i]),
    ensures
        parsed_pairs(settings_lines_of(pairs)) == pair_views(pairs),
    decreases pairs.len(),
{
    if pairs.len() == 0 {
        assert(settings_lines_of(pairs) =~= Seq::<Seq<char>>::empty());
        assert(pair_views(pairs) =~= Seq::<(Seq<char>, u8)>::empty());
    } else {
        let front = pairs.drop_last();
        assert forall|i: int| 0 <= i < front.len() implies persistable_pair(
            #[trigger] front[i],
        ) by {
            assert(front[i] == pairs[i]);
        }
        lemma_parsed_settings_lines(front);
        let last = pairs.last();
        let lines = settings_lines_of(pairs);
        assert(lines.drop_last() =~= settings_lines_of(front));
        assert(lines.last() == settings_line(last));
        lemma_settings_line_round_trip(last.0@, last.1);
        assert(parse_settings_line(lines.last()) == Some((last.0@, last.1)));
        assert(pair_views(pairs) =~= pair_views(front).push((last.0@, last.1)));
        assert(parsed_pairs(lines) =~= pair_views(pairs));
    }
}

/// Law: the persisted settings text round-trips as a whole.  Written for
/// persistable pairs — non-empty names free of '=' and newline, volumes not
/// above 100 — the text parses back to exactly those names and volumes.
pub proof fn lemma_settings_round_trip(pairs: Seq<(String, u8)>)
    requires
        forall|i: int| 0 <= i < pairs.len() ==> persistable_pair(#[trigger] pairs[i]),
    ensures
        parsed_pairs(text_lines(settings_text(pairs))) == pair_views(pairs),
{
    lemma_settings_text_lines(pairs);
    assert(text_lines(settings_text(pairs)) =~= settings_lines_of(pairs));
    lemma_parsed_settings_lines(pairs);
}

/// A one-character string for the given digit value.
fn digit_str(d: u8) -> (r: &'static str)
    requires
        d < 10,
    ensures
        r@ == seq![digit_char(d as int)],
{
    proof {
        reveal_strlit("0");
        reveal_strlit("1");
        reveal_strlit("2");
        reveal_strlit("3");
        reveal_strlit("4");
        reveal_strlit("5");
        reveal_strlit("6");
        reveal_strlit("7");
        reveal_strlit("8");
        reveal_strlit("9");
    }
    match d {
        0 => "0",
        1 => "1",
        2 => "2",
        3 => "3",
        4 => "4",
        5 => "5",
        6 => "6",
        7 => "7",
        8 => "8",
        _ => "9",
    }
}

/// The decimal text of a volume percent.
fn format_volume(v: u8) -> (r: String)
    ensures
        r@ == decimal_digits(v as int),
{
    if v < 10 {
        let r = String::from_str(digit_str(v));
        proof {
            assert(decimal_digits(v as int) =~= seq![digit_char(v as int)]);
            assert(r@ =~= decimal_digits(v as int));
        }
        r
    } else if v < 100 {
        let r = String::from_str(digit_str(v / 10)).concat(digit_str(v % 10));
        proof {
            assert(decimal_digits((v / 10) as int) =~= seq![digit_char((v / 10) as int)]);
            assert(decimal_digits(v as int) =~= decimal_digits((v / 10) as int).push(
                digit_char((v % 10) as int),
            ));
            assert(r@ =~= decimal_digits(v as int));
        }
        r
    } else {
        let r = String::from_str(digit_str(v / 100)).concat(digit_str((v / 10) % 10)).concat(
            digit_str(v % 10),
        );
        proof {
            assert(decimal_digits((v / 100) as int) =~= seq![digit_char((v / 100) as int)]);
            assert(decimal_digits((v / 10) as int) =~= decimal_digits((v / 100) as int).push(
                digit_char(((v / 10) % 10) as int),
            ));
            assert(decimal_digits(v as int) =~= decimal_digits((v / 10) as int).push(
                digit_char((v % 10) as int),
            ));
            assert(r@ =~= decimal_digits(v as int));
        }
        r
    }
}

/// Renders the persisted text for the given name/volume pairs.
pub fn format_volume_settings(pairs: &Vec<(String, u8)>) -> (r: String)
    ensures
        r@ == settings_text(pairs@),
{
    proof {
        reveal_strlit("=");
        reveal_strlit("\n");
    }
    let mut out = String::new();
    let mut k: usize = 0;
    proof {
        assert(out@ =~= settings_text(pairs@.subrange(0, 0)));
    }
    while k < pairs.len()
        invariant
            k <= pairs@.len(),
            out@ == settings_text(pairs@.subrange(0, k as int)),
        decreases pairs@.len() - k,
    {
        let ghost prefix = pairs@.subrange(0, k as int);
        proof {
            reveal_strlit("=");
            reveal_strlit("\n");
        }
        let mut line = pairs[k].0.clone();
        line = line.concat("=");
        let vol = format_volume(pairs[k].1);
        line = line.concat(vol.as_str());
        line = line.concat("\n");
        out = out.concat(line.as_str());
        proof {
            assert(pairs@.subrange(0, k + 1).drop_last() =~= prefix);
            assert(pairs@.subrange(0, k + 1).last() == pairs@[k as int]);
            assert(out@ =~= settings_text(pairs@.subrange(0, k + 1)));
        }
        k = k + 1;
    }
    proof {
        assert(pairs@.subrange(0, pairs@.len() as int) =~= pairs@);
    }
    out
}

/// Finds the first '=' of a line.
fn find_eq(line: &str) -> (r: Option<usize>)
    ensures
        match r {
            Some(e) => eq_index(line@) == e as int,
            None => eq_index(line@) == -1,
        },
{
    let n = line.unicode_len();
    let mut e: usize = 0;
    while e < n
        invariant
            n == line@.len(),
            e <= n,
            forall|j: int| 0 <= j < e ==> line@[j] != '=',
        decreases n - e,
    {
        if line.get_char(e) == '=' {
            proof {
                lemma_eq_index_unique(line@, e as int);
            }
            return Some(e);
        }
        e = e + 1;
    }
    proof {
        lemma_eq_index_correct(line@);
        if eq_index(line@) != -1 {
            assert(line@[eq_index(line@)] != '=');
        }
    }
    None
}

/// Parses one settings line.
fn parse_line(line: &str) -> (r: Option<(String, u8)>)
    ensures
        match r {
            Some(p) => parse_settings_line(line@) == Some((p.0@, p.1)),
            None => parse_settings_line(line@) is None,
        },
{
    let n = line.unicode_len();
    let e = match find_eq(line) {
        None => {
            return None;
        },
        Some(e) => e,
    };
    proof {
        lemma_eq_index_correct(line@);
    }
    if e == 0 {
        return None;
    }
    let digit_count = n - (e + 1);
    if digit_count < 1 || digit_count > 3 {
        return None;
    }
    let ghost digits = line@.subrange(e + 1, n as int);
    let mut v: u32 = 0;
    let mut j: usize = e + 1;
    proof {
        assert(digits.subrange(0, 0) =~= Seq::<char>::empty());
    }
    while j < n
        invariant
            n == line@.len(),
            eq_index(line@) == e as int,
            0 < e < n,
            e + 1 <= j <= n,
            1 <= n - (e + 1) <= 3,
            digits == line@.subrange(e + 1, n as int),
            all_digits(digits.subrange(0, j - (e + 1))),
            v == digits_value(digits.subrange(0, j - (e + 1))),
            j - (e + 1) == 0 ==> v == 0,
            j - (e + 1) == 1 ==> v < 10,
            j - (e + 1) == 2 ==> v < 100,
            j - (e + 1) == 3 ==> v < 1000,
        decreases n - j,
    {
        let c = line.get_char(j);
        let u = c as u32;
        if u < 48 || u > 57 {
            proof {
                assert(digits[j - (e + 1)] == line@[j as int]);
                assert(digit_value(digits[j - (e + 1)]) == -1);
                assert(!all_digits(digits));
            }
            return None;
        }
        proof {
            let d0 = digits.subrange(0, j - (e + 1));
            let ch = line@[j as int];
            assert(digits.subrange(0, j - e) =~= d0.push(ch));
            assert(d0.push(ch).drop_last() =~= d0);
            assert(d0.push(ch).last() == ch);
            assert(digits_value(d0.push(ch)) == digits_value(d0) * 10 + digit_value(ch));
            assert(digit_value(ch) == u - 48);
        }
        v = v * 10 + (u - 48);
        j = j + 1;
    }
    proof {
        assert(digits.subrange(0, n - (e + 1)) =~= digits);
    }
    let name = String::from_str(line.substring_char(0, e));
    let vol: u8 = if v > 100 {
        100
    } else {
        v as u8
    };
    Some((name, vol))
}

/// Parses a persisted settings text into its name/volume pairs, skipping
/// unparsable lines.
pub fn parse_volume_settings(text: &str) -> (pairs: Vec<(String, u8)>)
    ensures
        pairs@.map_values(|p: (String, u8)| (p.0@, p.1)) == parsed_pairs(text_lines(text@)),
{
    let mut cursor = GamelogCursor::new(0);
    let mut lines = cursor.feed(text, 0);
    if !cursor.pending.as_str().is_empty() {
        lines.push(cursor.pending);
    }
    proof {
        assert(lines@.map_values(|l: String| l@) =~= text_lines(text@));
    }
    let ghost line_views = lines@.map_values(|l: String| l@);
    let mut pairs: Vec<(String, u8)> = Vec::new();
    let mut k: usize = 0;
    proof {
        assert(pairs@.map_values(|p: (String, u8)| (p.0@, p.1)) =~= parsed_pairs(
            line_views.subrange(0, 0),
        ));
    }
    while k < lines.len()
        invariant
            k <= lines@.len(),
            line_views == lines@.map_values(|l: String| l@),
            pairs@.map_values(|p: (String, u8)| (p.0@, p.1)) == parsed_pairs(
                line_views.subrange(0, k as int),
            ),
        decreases lines@.len() - k,
    {
        let ghost prefix = line_views.subrange(0, k as int);
        if let Some(p) = parse_line(lines[k].as_str()) {
            pairs.push(p);
        }
        proof {
            assert(line_views.subrange(0, k + 1).drop_last() =~= prefix);
            assert(line_views.subrange(0, k + 1).last() == line_views[k as int]);
            assert(pairs@.map_values(|p: (String, u8)| (p.0@, p.1)) =~= parsed_pairs(
                line_views.subrange(0, k + 1),
            ));
        }
        k = k + 1;
    }
    proof {
        assert(line_views.subrange(0, line_views.len() as int) =~= line_views);
    }
    pairs
}

} // verus!
