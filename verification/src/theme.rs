//! The colour theme: a fixed set of named colour roles used by rendering,
//! each an RGB triple, together with the parser that reads a colour from its
//! textual form (`#rrggbb`, `rrggbb`, or one of sixteen ANSI-style names) and
//! the loader that builds a theme from a list of key/value pairs, reporting
//! unknown keys and invalid values instead of failing.

use vstd::prelude::*;
use vstd::string::StringExecFns;
use vstd::utf8::encode_utf8;

use crate::strops::bytes_eq_ignore_case;
use crate::strops::eq_ignore_case;
use crate::strops::remove_ascii_ws;
use crate::strops::spec_is_ascii_ws;
use crate::strops::spec_lower_bytes;
use crate::strops::spec_starts_with;
use crate::strops::str_has_prefix;

verus! {

/// An RGB colour.
#[derive(Copy, Clone, Debug, PartialEq, Eq, Structural)]
pub struct Color(pub u8, pub u8, pub u8);

/// The colour roles that rendering draws from.
#[derive(Copy, Clone, Debug, PartialEq, Eq, Structural)]
pub struct Theme {
    pub warning: Color,
    pub error: Color,
    pub note: Color,
    pub unknown: Color,
    pub message: Color,
    pub code: Color,
    pub highlight: Color,
    pub continuation: Color,
    pub location: Color,
    pub lint_name: Color,
}

/// What a theme load had to pass over: keys that name no role, and values
/// that name no colour (with the parse error for each).
pub struct Report {
    pub unknown_keys: Vec<String>,
    pub invalid_values: Vec<(String, String)>,
}

/// The built-in theme.
pub open spec fn spec_default_theme() -> Theme {
    Theme {
        warning: Color(0xFF, 0xFF, 0x00),
        error: Color(0xFF, 0x00, 0x00),
        note: Color(0x00, 0xFF, 0x00),
        unknown: Color(0x00, 0x80, 0x80),
        message: Color(0xFF, 0xFF, 0xFF),
        code: Color(0xC0, 0xC0, 0xC0),
        highlight: Color(0x00, 0x00, 0xFF),
        continuation: Color(0x80, 0x80, 0x80),
        location: Color(0x80, 0x80, 0x80),
        lint_name: Color(0x80, 0x00, 0x80),
    }
}

impl Default for Theme {
    /// The built-in theme: bright yellow warnings, bright red errors, bright
    /// green notes, and muted decorations.
    fn default() -> (r: Self)
        ensures
            r == spec_default_theme(),
    {
        Theme {
            warning: Color(0xFF, 0xFF, 0x00),
            error: Color(0xFF, 0x00, 0x00),
            note: Color(0x00, 0xFF, 0x00),
            unknown: Color(0x00, 0x80, 0x80),
            message: Color(0xFF, 0xFF, 0xFF),
            code: Color(0xC0, 0xC0, 0xC0),
            highlight: Color(0x00, 0x00, 0xFF),
            continuation: Color(0x80, 0x80, 0x80),
            location: Color(0x80, 0x80, 0x80),
            lint_name: Color(0x80, 0x00, 0x80),
        }
    }
}

impl Default for Report {
    fn default() -> (r: Self)
        ensures
            r.unknown_keys@.len() == 0,
            r.invalid_values@.len() == 0,
    {
        Report { unknown_keys: Vec::new(), invalid_values: Vec::new() }
    }
}

/// True of the bytes that are hexadecimal digit characters.
pub open spec fn spec_is_hex_byte(b: u8) -> bool {
    (48 <= b <= 57) || (97 <= b <= 102) || (65 <= b <= 70)
}

/// The numeric value of a hexadecimal digit byte.
pub open spec fn spec_hex_val(b: u8) -> int {
    if 48 <= b <= 57 {
        b - 48
    } else if 97 <= b <= 102 {
        b - 87
    } else {
        b - 55
    }
}

pub open spec fn spec_all_hex(s: Seq<u8>) -> bool {
    forall|i: int| 0 <= i < s.len() ==> spec_is_hex_byte(#[trigger] s[i])
}

/// The colour written as six hexadecimal digit bytes, two per channel.
pub open spec fn spec_color_of_hex6(s: Seq<u8>) -> Color
    recommends
        s.len() == 6,
        spec_all_hex(s),
{
    Color(
        (16 * spec_hex_val(s[0]) + spec_hex_val(s[1])) as u8,
        (16 * spec_hex_val(s[2]) + spec_hex_val(s[3])) as u8,
        (16 * spec_hex_val(s[4]) + spec_hex_val(s[5])) as u8,
    )
}

/// The sixteen colour names and their RGB values.
pub open spec fn spec_named_color(i: int) -> (Seq<char>, Color)
    recommends
        0 <= i < 16,
{
    if i == 0 {
        ("Black"@, Color(0x40, 0x40, 0x40))
    } else if i == 1 {
        ("White"@, Color(0xC0, 0xC0, 0xC0))
    } else if i == 2 {
        ("Red"@, Color(0x80, 0x00, 0x00))
    } else if i == 3 {
        ("Green"@, Color(0x00, 0x80, 0x00))
    } else if i == 4 {
        ("Blue"@, Color(0x00, 0x00, 0x80))
    } else if i == 5 {
        ("Yellow"@, Color(0x80, 0x80, 0x00))
    } else if i == 6 {
        ("Magenta"@, Color(0x80, 0x00, 0x80))
    } else if i == 7 {
        ("Cyan"@, Color(0x00, 0x80, 0x80))
    } else if i == 8 {
        ("BrightBlack"@, Color(0x80, 0x80, 0x80))
    } else if i == 9 {
        ("BrightWhite"@, Color(0xFF, 0xFF, 0xFF))
    } else if i == 10 {
        ("BrightRed"@, Color(0xFF, 0x00, 0x00))
    } else if i == 11 {
        ("BrightGreen"@, Color(0x00, 0xFF, 0x00))
    } else if i == 12 {
        ("BrightBlue"@, Color(0x00, 0x00, 0xFF))
    } else if i == 13 {
        ("BrightYellow"@, Color(0xFF, 0xFF, 0x00))
    } else if i == 14 {
        ("BrightMagenta"@, Color(0xFF, 0x00, 0xFF))
    } else {
        ("BrightCyan"@, Color(0x00, 0xFF, 0xFF))
    }
}

/// How an input is held against a colour name: when it opens with `bright`
/// or `Bright` its ASCII whitespace is dropped first, and the rest of the
/// comparison ignores ASCII case.
pub open spec fn spec_name_matches(input: Seq<char>, name: Seq<char>) -> bool {
    let ib = encode_utf8(input);
    let nb = encode_utf8(name);
    if spec_starts_with(ib, encode_utf8("bright"@)) || spec_starts_with(
        ib,
        encode_utf8("Bright"@),
    ) {
        spec_lower_bytes(ib.filter(|b: u8| !spec_is_ascii_ws(b))) == spec_lower_bytes(nb)
    } else {
        spec_lower_bytes(ib) == spec_lower_bytes(nb)
    }
}

/// The first of the sixteen names, from position `i` on, that the input
/// matches.
pub open spec fn spec_lookup_named(input: Seq<char>, i: int) -> Option<Color>
    decreases 16 - i,
{
    if i < 0 || i >= 16 {
        None
    } else if spec_name_matches(input, spec_named_color(i).0) {
        Some(spec_named_color(i).1)
    } else {
        spec_lookup_named(input, i + 1)
    }
}

/// What parsing a colour from text yields: six hexadecimal digits (with or
/// without one leading marker byte) give the channels directly; otherwise
/// the named colours are consulted; anything else is an error naming the
/// input.
pub open spec fn spec_color_from_chars(s: Seq<char>) -> Result<Color, Seq<char>> {
    let b = encode_utf8(s);
    if b.len() == 7 && spec_all_hex(b.subrange(1, 7)) {
        Ok(spec_color_of_hex6(b.subrange(1, 7)))
    } else if b.len() == 6 && spec_all_hex(b) {
        Ok(spec_color_of_hex6(b))
    } else {
        match spec_lookup_named(s, 0) {
            Some(c) => Ok(c),
            None => Err("unknown color: "@ + s),
        }
    }
}

fn hex_val(b: u8) -> (r: u8)
    requires
        spec_is_hex_byte(b),
    ensures
        r == spec_hex_val(b),
        r < 16,
{
    if 48 <= b && b <= 57 {
        b - 48
    } else if 97 <= b && b <= 102 {
        b - 87
    } else {
        b - 55
    }
}

fn is_hex_byte(b: u8) -> (r: bool)
    ensures
        r == spec_is_hex_byte(b),
{
    (48 <= b && b <= 57) || (97 <= b && b <= 102) || (65 <= b && b <= 70)
}

/// Whether every byte of `s` in `[from, to)` is a hexadecimal digit.
fn all_hex_in(s: &[u8], from: usize, to: usize) -> (r: bool)
    requires
        from <= to <= s@.len(),
    ensures
        r == spec_all_hex(s@.subrange(from as int, to as int)),
{
    let mut i: usize = from;
    while i < to
        invariant
            from <= i <= to <= s@.len(),
            forall|j: int| from <= j < i ==> spec_is_hex_byte(#[trigger] s@[j]),
        decreases to - i,
    {
        if !is_hex_byte(s[i]) {
            proof {
                assert(s@.subrange(from as int, to as int)[i - from] == s@[i as int]);
            }
            return false;
        }
        i += 1;
    }
    proof {
        assert forall|j: int| 0 <= j < to - from implies spec_is_hex_byte(
            #[trigger] s@.subrange(from as int, to as int)[j],
        ) by {
            assert(s@.subrange(from as int, to as int)[j] == s@[j + from]);
        }
    }
    true
}

fn color_of_hex6(s: &[u8], from: usize) -> (r: Color)
    requires
        from + 6 <= s@.len(),
        spec_all_hex(s@.subrange(from as int, from + 6)),
    ensures
        r == spec_color_of_hex6(s@.subrange(from as int, from + 6)),
{
    proof {
        let sub = s@.subrange(from as int, from + 6);
        assert(sub[0] == s@[from as int] && spec_is_hex_byte(sub[0]));
        assert(sub[1] == s@[from + 1] && spec_is_hex_byte(sub[1]));
        assert(sub[2] == s@[from + 2] && spec_is_hex_byte(sub[2]));
        assert(sub[3] == s@[from + 3] && spec_is_hex_byte(sub[3]));
        assert(sub[4] == s@[from + 4] && spec_is_hex_byte(sub[4]));
        assert(sub[5] == s@[from + 5] && spec_is_hex_byte(sub[5]));
    }
    let r0 = 16 * hex_val(s[from]) + hex_val(s[from + 1]);
    let g0 = 16 * hex_val(s[from + 2]) + hex_val(s[from + 3]);
    let b0 = 16 * hex_val(s[from + 4]) + hex_val(s[from + 5]);
    Color(r0, g0, b0)
}

fn named_color_entry(i: usize) -> (r: (&'static str, Color))
    requires
        i < 16,
    ensures
        r.0@ == spec_named_color(i as int).0,
        r.1 == spec_named_color(i as int).1,
{
    if i == 0 {
        ("Black", Color(0x40, 0x40, 0x40))
    } else if i == 1 {
        ("White", Color(0xC0, 0xC0, 0xC0))
    } else if i == 2 {
        ("Red", Color(0x80, 0x00, 0x00))
    } else if i == 3 {
        ("Green", Color(0x00, 0x80, 0x00))
    } else if i == 4 {
        ("Blue", Color(0x00, 0x00, 0x80))
    } else if i == 5 {
        ("Yellow", Color(0x80, 0x80, 0x00))
    } else if i == 6 {
        ("Magenta", Color(0x80, 0x00, 0x80))
    } else if i == 7 {
        ("Cyan", Color(0x00, 0x80, 0x80))
    } else if i == 8 {
        ("BrightBlack", Color(0x80, 0x80, 0x80))
    } else if i == 9 {
        ("BrightWhite", Color(0xFF, 0xFF, 0xFF))
    } else if i == 10 {
        ("BrightRed", Color(0xFF, 0x00, 0x00))
    } else if i == 11 {
        ("BrightGreen", Color(0x00, 0xFF, 0x00))
    } else if i == 12 {
        ("BrightBlue", Color(0x00, 0x00, 0xFF))
    } else if i == 13 {
        ("BrightYellow", Color(0xFF, 0xFF, 0x00))
    } else if i == 14 {
        ("BrightMagenta", Color(0xFF, 0x00, 0xFF))
    } else {
        ("BrightCyan", Color(0x00, 0xFF, 0xFF))
    }
}

fn name_matches(input: &str, name: &str) -> (r: bool)
    ensures
        r == spec_name_matches(input@, name@),
{
    if str_has_prefix(input, "bright") || str_has_prefix(input, "Bright") {
        let cleaned = remove_ascii_ws(input);
        bytes_eq_ignore_case(cleaned.as_slice(), name)
    } else {
        eq_ignore_case(input, name)
    }
}

impl Color {
    /// Looks a colour name up, as `try_from_named` below spells it out.
    fn lookup_named(input: &str) -> (r: Option<Color>)
        ensures
            r == spec_lookup_named(input@, 0),
    {
        let mut i: usize = 0;
        while i < 16
            invariant
                i <= 16,
                spec_lookup_named(input@, 0) == spec_lookup_named(input@, i as int),
            decreases 16 - i,
        {
            let entry = named_color_entry(i);
            if name_matches(input, entry.0) {
                return Some(entry.1);
            }
            i += 1;
        }
        None
    }

    /// Resolves one of the sixteen colour names, ignoring ASCII case; a name
    /// that opens with `bright` may carry whitespace, which is dropped
    /// before the comparison (so `Bright Red` names `BrightRed`). Any other
    /// input is an error that names it.
    pub fn try_from_named(input: &str) -> (r: Result<Color, String>)
        ensures
            match spec_lookup_named(input@, 0) {
                Some(c) => r == Result::<Color, String>::Ok(c),
                None => r is Err && r->Err_0@ == "unknown color: "@ + input@,
            },
    {
        match Self::lookup_named(input) {
            Some(c) => Ok(c),
            None => {
                let mut msg = "unknown color: ".to_owned();
                msg.append(input);
                Err(msg)
            },
        }
    }

    /// Parses a colour from text: seven characters whose tail is six
    /// hexadecimal digits (the usual `#rrggbb`), six hexadecimal digits, or
    /// a colour name.
    pub fn from_str(input: &str) -> (r: Result<Color, String>)
        ensures
            match spec_color_from_chars(input@) {
                Ok(c) => r == Result::<Color, String>::Ok(c),
                Err(e) => r is Err && r->Err_0@ == e,
            },
    {
        let b = input.as_bytes();
        if b.len() == 7 && all_hex_in(b, 1, 7) {
            Ok(color_of_hex6(b, 1))
        } else if b.len() == 6 && all_hex_in(b, 0, 6) {
            proof {
                assert(b@.subrange(0, 6) =~= b@);
            }
            Ok(color_of_hex6(b, 0))
        } else {
            Self::try_from_named(input)
        }
    }

    /// The colour written as `#rrggbb` with lower-case digits.
    pub open spec fn spec_hex_string(self) -> Seq<char> {
        seq!['#'] + crate::strops::spec_hex_byte(self.0) + crate::strops::spec_hex_byte(self.1)
            + crate::strops::spec_hex_byte(self.2)
    }

    /// Writes the colour as `#rrggbb`.
    pub fn to_hex_string(&self) -> (r: String)
        ensures
            r@ == self.spec_hex_string(),
    {
        proof {
            reveal_strlit("#");
        }
        let mut s = "#".to_owned();
        crate::strops::append_hex_byte(&mut s, self.0);
        crate::strops::append_hex_byte(&mut s, self.1);
        crate::strops::append_hex_byte(&mut s, self.2);
        proof {
            assert("#"@ =~= seq!['#']);
            assert(s@ =~= self.spec_hex_string());
        }
        s
    }

    /// The name of the colour among the sixteen named ones, if its RGB value
    /// is exactly one of theirs, searching in their fixed order.
    pub open spec fn spec_rgb_to_named(self, i: int) -> Option<Seq<char>>
        decreases 16 - i,
    {
        if i < 0 || i >= 16 {
            None
        } else if spec_named_color(i).1 == self {
            Some(spec_named_color(i).0)
        } else {
            self.spec_rgb_to_named(i + 1)
        }
    }

    /// Finds the name of this colour among the sixteen named ones.
    pub fn rgb_to_named(self) -> (r: Option<&'static str>)
        ensures
            match self.spec_rgb_to_named(0) {
                Some(name) => r is Some && r->0@ == name,
                None => r is None,
            },
    {
        let mut i: usize = 0;
        while i < 16
            invariant
                i <= 16,
                self.spec_rgb_to_named(0) == self.spec_rgb_to_named(i as int),
            decreases 16 - i,
        {
            let entry = named_color_entry(i);
            if entry.1 == self {
                return Some(entry.0);
            }
            i += 1;
        }
        None
    }
}

/// The role a theme key names, in the fixed role order.
pub open spec fn spec_role_index(key: Seq<char>) -> Option<int> {
    if key == "warning"@ {
        Some(0int)
    } else if key == "error"@ {
        Some(1int)
    } else if key == "note"@ {
        Some(2int)
    } else if key == "unknown"@ {
        Some(3int)
    } else if key == "message"@ {
        Some(4int)
    } else if key == "code"@ {
        Some(5int)
    } else if key == "highlight"@ {
        Some(6int)
    } else if key == "continuation"@ {
        Some(7int)
    } else if key == "location"@ {
        Some(8int)
    } else if key == "lint_name"@ {
        Some(9int)
    } else {
        None
    }
}

/// The theme with the role at `i` set to `c`.
pub open spec fn spec_set_role(t: Theme, i: int, c: Color) -> Theme {
    if i == 0 {
        Theme { warning: c, ..t }
    } else if i == 1 {
        Theme { error: c, ..t }
    } else if i == 2 {
        Theme { note: c, ..t }
    } else if i == 3 {
        Theme { unknown: c, ..t }
    } else if i == 4 {
        Theme { message: c, ..t }
    } else if i == 5 {
        Theme { code: c, ..t }
    } else if i == 6 {
        Theme { highlight: c, ..t }
    } else if i == 7 {
        Theme { continuation: c, ..t }
    } else if i == 8 {
        Theme { location: c, ..t }
    } else {
        Theme { lint_name: c, ..t }
    }
}

fn role_index(key: &str) -> (r: Option<usize>)
    ensures
        match spec_role_index(key@) {
            Some(i) => r == Some(i as usize),
            None => r is None,
        },
{
    if crate::strops::str_eq(key, "warning") {
        Some(0)
    } else if crate::strops::str_eq(key, "error") {
        Some(1)
    } else if crate::strops::str_eq(key, "note") {
        Some(2)
    } else if crate::strops::str_eq(key, "unknown") {
        Some(3)
    } else if crate::strops::str_eq(key, "message") {
        Some(4)
    } else if crate::strops::str_eq(key, "code") {
        Some(5)
    } else if crate::strops::str_eq(key, "highlight") {
        Some(6)
    } else if crate::strops::str_eq(key, "continuation") {
        Some(7)
    } else if crate::strops::str_eq(key, "location") {
        Some(8)
    } else if crate::strops::str_eq(key, "lint_name") {
        Some(9)
    } else {
        None
    }
}

fn set_role(t: &mut Theme, i: usize, c: Color)
    requires
        i < 10,
    ensures
        *final(t) == spec_set_role(*old(t), i as int, c),
{
    if i == 0 {
        t.warning = c;
    } else if i == 1 {
        t.error = c;
    } else if i == 2 {
        t.note = c;
    } else if i == 3 {
        t.unknown = c;
    } else if i == 4 {
        t.message = c;
    } else if i == 5 {
        t.code = c;
    } else if i == 6 {
        t.highlight = c;
    } else if i == 7 {
        t.continuation = c;
    } else if i == 8 {
        t.location = c;
    } else {
        t.lint_name = c;
    }
}

/// What loading a prefix of the entry list yields: the theme after every
/// recognised assignment, the keys that name no role, and the values that
/// name no colour, each with its parse error, both in entry order. A later
/// entry for a role overrides an earlier one.
pub open spec fn spec_theme_load(entries: Seq<(String, String)>, n: int) -> (
    Theme,
    Seq<Seq<char>>,
    Seq<(Seq<char>, Seq<char>)>,
)
    decreases n,
{
    if n <= 0 {
        (spec_default_theme(), Seq::empty(), Seq::empty())
    } else {
        let prev = spec_theme_load(entries, n - 1);
        let key = entries[n - 1].0;
        let value = entries[n - 1].1;
        match spec_role_index(key@) {
            Some(i) => match spec_color_from_chars(value@) {
                Ok(c) => (spec_set_role(prev.0, i, c), prev.1, prev.2),
                Err(e) => (prev.0, prev.1, prev.2 + seq![(key@, e)]),
            },
            None => (prev.0, prev.1 + seq![key@], prev.2),
        }
    }
}

impl Theme {
    /// Builds a theme from serialized key/value pairs. Keys name roles and
    /// values name colours; an unknown key or an unparsable value goes into
    /// the report instead of failing the load.
    pub fn load(entries: &Vec<(String, String)>) -> (r: Option<(Theme, Report)>)
        ensures
            ({
                let m = spec_theme_load(entries@, entries@.len() as int);
                match r {
                    Some(p) => p.0 == m.0 && p.1.unknown_keys@.map_values(|k: String| k@) == m.1
                        && p.1.invalid_values@.map_values(|q: (String, String)| (q.0@, q.1@))
                        == m.2,
                    None => false,
                }
            }),
    {
        let mut theme = Theme::default();
        let mut unknown_keys: Vec<String> = Vec::new();
        let mut invalid_values: Vec<(String, String)> = Vec::new();
        let n = entries.len();
        let mut i: usize = 0;
        proof {
            assert(unknown_keys@.map_values(|k: String| k@) =~= Seq::<Seq<char>>::empty());
            assert(invalid_values@.map_values(|q: (String, String)| (q.0@, q.1@))
                =~= Seq::<(Seq<char>, Seq<char>)>::empty());
        }
        while i < n
            invariant
                n == entries@.len(),
                i <= n,
                theme == spec_theme_load(entries@, i as int).0,
                unknown_keys@.map_values(|k: String| k@) == spec_theme_load(entries@, i as int).1,
                invalid_values@.map_values(|q: (String, String)| (q.0@, q.1@)) == spec_theme_load(
                    entries@,
                    i as int,
                ).2,
            decreases n - i,
        {
            let ghost prev_unknown = unknown_keys@;
            let ghost prev_invalid = invalid_values@;
            let key: &String = &entries[i].0;
            let value: &String = &entries[i].1;
            match role_index(key.as_str()) {
                Some(role) => {
                    match Color::from_str(value.as_str()) {
                        Ok(c) => {
                            set_role(&mut theme, role, c);
                        },
                        Err(e) => {
                            invalid_values.push((key.clone(), e));
                            proof {
                                assert(invalid_values@.map_values(
                                    |q: (String, String)| (q.0@, q.1@),
                                ) =~= prev_invalid.map_values(|q: (String, String)| (q.0@, q.1@))
                                    + seq![(key@, spec_theme_load(entries@, i + 1).2.last().1)]);
                            }
                        },
                    }
                },
                None => {
                    unknown_keys.push(key.clone());
                    proof {
                        assert(unknown_keys@.map_values(|k: String| k@) =~= prev_unknown.map_values(
                            |k: String| k@,
                        ) + seq![key@]);
                    }
                },
            }
            i += 1;
        }
        Some((theme, Report { unknown_keys, invalid_values }))
    }
}

} // verus!
