//! Rendering options: the style (location-only or with source snippets),
//! whether notes are shown, the suppression rules, and the decorations put
//! between and in front of items.

use vstd::prelude::*;
use vstd::string::StringExecFns;
use vstd::string::StringSliceAdditionalSpecFns;
use vstd::utf8::encode_utf8;
use vstd::utf8::decode_utf8;
use vstd::utf8::is_char_boundary;
use vstd::utf8::is_leading_byte_width_1;
use vstd::utf8::length_of_first_scalar;
use vstd::utf8::pop_first_scalar;
use vstd::utf8::valid_utf8;

use crate::parse::Level;
use crate::strops::eq_ignore_case;
use crate::strops::find_byte;
use crate::strops::lemma_find_byte_props;
use crate::strops::spec_find_byte;
use crate::strops::spec_lower_bytes;
use crate::strops::spec_trim_ascii;
use crate::strops::str_eq;
use crate::strops::trim_ascii;

verus! {

/// Short prints a location reference alone; Full adds the highlighted
/// source snippet above it.
#[derive(Copy, Clone, Debug, PartialEq, Eq, Structural)]
pub enum RenderStyle {
    Short,
    Full,
}

impl Default for RenderStyle {
    fn default() -> (r: Self)
        ensures
            r == RenderStyle::Short,
    {
        RenderStyle::Short
    }
}

/// Whether messages at level Note are rendered at all.
#[derive(Copy, Clone, Debug, PartialEq, Eq, Structural)]
pub enum IncludeNotes {
    Yes,
    No,
}

impl Default for IncludeNotes {
    fn default() -> (r: Self)
        ensures
            r == IncludeNotes::No,
    {
        IncludeNotes::No
    }
}

/// One suppression rule: a whole severity, or one named rule at a severity.
#[derive(Debug, Clone)]
pub enum Filter {
    AllWarnings,
    AllErrors,
    Error(String),
    Warning(String),
}

/// The mathematical form of a suppression rule, with rule names as their
/// character sequences.
pub enum FilterModel {
    AllWarnings,
    AllErrors,
    Error(Seq<char>),
    Warning(Seq<char>),
}

impl View for Filter {
    type V = FilterModel;

    open spec fn view(&self) -> FilterModel {
        match self {
            Filter::AllWarnings => FilterModel::AllWarnings,
            Filter::AllErrors => FilterModel::AllErrors,
            Filter::Error(s) => FilterModel::Error(s@),
            Filter::Warning(s) => FilterModel::Warning(s@),
        }
    }
}

/// Rule-name equality ignores ASCII case.
pub open spec fn spec_lint_eq(a: Seq<char>, b: Seq<char>) -> bool {
    spec_lower_bytes(encode_utf8(a)) == spec_lower_bytes(encode_utf8(b))
}

/// Whether one rule suppresses a message with the given level and named
/// rule: a whole-severity rule matches its level unconditionally, a named
/// rule matches its level and its name, ignoring ASCII case.
pub open spec fn spec_rule_matches(f: FilterModel, level: Level, name: Option<Seq<char>>) -> bool {
    match f {
        FilterModel::Error(lint) => level is Error && name is Some && spec_lint_eq(lint, name->0),
        FilterModel::Warning(lint) => level is Warning && name is Some && spec_lint_eq(
            lint,
            name->0,
        ),
        FilterModel::AllErrors => level is Error,
        FilterModel::AllWarnings => level is Warning,
    }
}

/// Whether any rule of the set suppresses the message.
pub open spec fn spec_is_ignored(
    filters: Seq<FilterModel>,
    level: Level,
    name: Option<Seq<char>>,
) -> bool {
    exists|i: int| 0 <= i < filters.len() && spec_rule_matches(#[trigger] filters[i], level, name)
}

/// The rule set extended by one rule, unless an equal rule is present.
pub open spec fn spec_filters_with(fs: Seq<FilterModel>, f: FilterModel) -> Seq<FilterModel> {
    if fs.contains(f) {
        fs
    } else {
        fs.push(f)
    }
}

/// How one rendering pass behaves: style, note handling, suppression rules,
/// the continuation marker put before locations, and the separator between
/// items (a literal line, or a blank line when `new_line` is set).
#[derive(Debug, Clone)]
pub struct RenderOptions {
    pub render: RenderStyle,
    pub include_notes: IncludeNotes,
    pub filter: Vec<Filter>,
    pub continuation: Option<String>,
    pub delimiter: Option<String>,
    pub new_line: bool,
}

impl RenderOptions {
    pub open spec fn spec_filters(self) -> Seq<FilterModel> {
        self.filter@.map_values(|f: Filter| f@)
    }

    /// All fields other than the rule set.
    pub open spec fn same_but_filter(self, other: Self) -> bool {
        self.render == other.render && self.include_notes == other.include_notes
            && self.continuation == other.continuation && self.delimiter == other.delimiter
            && self.new_line == other.new_line
    }
}

impl Default for RenderOptions {
    fn default() -> (r: Self)
        ensures
            r.render == RenderStyle::Short,
            r.include_notes == IncludeNotes::No,
            r.spec_filters() == Seq::<FilterModel>::empty(),
            r.continuation is None,
            r.delimiter is None,
            r.new_line == false,
    {
        let r = RenderOptions {
            render: RenderStyle::Short,
            include_notes: IncludeNotes::No,
            filter: Vec::new(),
            continuation: None,
            delimiter: None,
            new_line: false,
        };
        proof {
            assert(r.spec_filters() =~= Seq::<FilterModel>::empty());
        }
        r
    }
}

/// Rule equality at the model level.
fn filter_eq(a: &Filter, b: &Filter) -> (r: bool)
    ensures
        r == (a@ == b@),
{
    match (a, b) {
        (Filter::AllWarnings, Filter::AllWarnings) => true,
        (Filter::AllErrors, Filter::AllErrors) => true,
        (Filter::Error(x), Filter::Error(y)) => str_eq(x.as_str(), y.as_str()),
        (Filter::Warning(x), Filter::Warning(y)) => str_eq(x.as_str(), y.as_str()),
        _ => false,
    }
}

fn has_filter(fs: &Vec<Filter>, f: &Filter) -> (r: bool)
    ensures
        r == fs@.map_values(|x: Filter| x@).contains(f@),
{
    let n = fs.len();
    let mut i: usize = 0;
    while i < n
        invariant
            n == fs@.len(),
            i <= n,
            forall|j: int| 0 <= j < i ==> (#[trigger] fs@[j])@ != f@,
        decreases n - i,
    {
        if filter_eq(&fs[i], f) {
            proof {
                assert(fs@.map_values(|x: Filter| x@)[i as int] == f@);
            }
            return true;
        }
        i += 1;
    }
    proof {
        let m = fs@.map_values(|x: Filter| x@);
        assert forall|j: int| 0 <= j < m.len() implies m[j] != f@ by {
            assert(m[j] == fs@[j]@);
        }
    }
    false
}

impl RenderOptions {
    fn with_filter(self, f: Filter) -> (r: Self)
        ensures
            r.spec_filters() == spec_filters_with(self.spec_filters(), f@),
            r.same_but_filter(self),
    {
        let mut this = self;
        if !has_filter(&this.filter, &f) {
            let ghost prev = this.filter@;
            this.filter.push(f);
            proof {
                assert(this.filter@.map_values(|x: Filter| x@) =~= prev.map_values(
                    |x: Filter| x@,
                ).push(this.filter@.last()@));
            }
        }
        this
    }

    /// Adds a rule that suppresses errors citing the given named rule,
    /// unless it is already present.
    pub fn without_error(self, name: String) -> (r: Self)
        ensures
            r.spec_filters() == spec_filters_with(
                self.spec_filters(),
                FilterModel::Error(name@),
            ),
            r.same_but_filter(self),
    {
        self.with_filter(Filter::Error(name))
    }

    /// Adds a rule that suppresses warnings citing the given named rule,
    /// unless it is already present.
    pub fn without_warning(self, name: String) -> (r: Self)
        ensures
            r.spec_filters() == spec_filters_with(
                self.spec_filters(),
                FilterModel::Warning(name@),
            ),
            r.same_but_filter(self),
    {
        self.with_filter(Filter::Warning(name))
    }

    /// Adds the rule that suppresses every error, unless it is already
    /// present.
    pub fn without_errors(self) -> (r: Self)
        ensures
            r.spec_filters() == spec_filters_with(self.spec_filters(), FilterModel::AllErrors),
            r.same_but_filter(self),
    {
        self.with_filter(Filter::AllErrors)
    }

    /// Adds the rule that suppresses every warning, unless it is already
    /// present.
    pub fn without_warnings(self) -> (r: Self)
        ensures
            r.spec_filters() == spec_filters_with(self.spec_filters(), FilterModel::AllWarnings),
            r.same_but_filter(self),
    {
        self.with_filter(Filter::AllWarnings)
    }

    /// Whether the rule set suppresses a message with this level and named
    /// rule.
    pub fn is_ignored(&self, level: Level, name: Option<&str>) -> (r: bool)
        ensures
            r == spec_is_ignored(
                self.spec_filters(),
                level,
                match name {
                    Some(s) => Some(s@),
                    None => None,
                },
            ),
    {
        let ghost nview: Option<Seq<char>> = match name {
            Some(s) => Some(s@),
            None => None,
        };
        let n = self.filter.len();
        let mut i: usize = 0;
        while i < n
            invariant
                n == self.filter@.len(),
                i <= n,
                nview == (match name {
                    Some(s) => Some(s@),
                    None => None,
                }),
                forall|j: int|
                    0 <= j < i ==> !spec_rule_matches(
                        #[trigger] self.spec_filters()[j],
                        level,
                        nview,
                    ),
            decreases n - i,
        {
            let matched = match &self.filter[i] {
                Filter::Error(lint) => match name {
                    Some(nm) => matches!(level, Level::Error) && eq_ignore_case(
                        lint.as_str(),
                        nm,
                    ),
                    None => false,
                },
                Filter::Warning(lint) => match name {
                    Some(nm) => matches!(level, Level::Warning) && eq_ignore_case(
                        lint.as_str(),
                        nm,
                    ),
                    None => false,
                },
                Filter::AllErrors => matches!(level, Level::Error),
                Filter::AllWarnings => matches!(level, Level::Warning),
            };
            proof {
                assert(self.spec_filters()[i as int] == self.filter@[i as int]@);
            }
            if matched {
                return true;
            }
            i += 1;
        }
        false
    }
}

/// What parsing a filter rule from text yields, on the input stripped of
/// surrounding ASCII whitespace. The accepted forms are
/// `warning=all`, `error=all`, `warning=<name>` and `error=<name>`; every
/// other input is an error whose message spells out what was wrong.
pub open spec fn spec_parse_filter(input: Seq<char>) -> Result<FilterModel, Seq<char>> {
    let tb = spec_trim_ascii(encode_utf8(input));
    let trimmed = decode_utf8(tb);
    if tb.len() == 0 {
        Err("input cannot be empty"@)
    } else {
        match spec_find_byte(tb, 61) {
            Some(i) => {
                let lb = tb.subrange(0, i);
                let rb = tb.subrange(i + 1, tb.len() as int);
                let l = decode_utf8(lb);
                let t = decode_utf8(rb);
                if lb == encode_utf8("warning"@) && rb == encode_utf8("all"@) {
                    Ok(FilterModel::AllWarnings)
                } else if lb == encode_utf8("error"@) && rb == encode_utf8("all"@) {
                    Ok(FilterModel::AllErrors)
                } else if lb == encode_utf8("warning"@) && rb.len() > 0 {
                    Ok(FilterModel::Warning(t))
                } else if lb == encode_utf8("error"@) && rb.len() > 0 {
                    Ok(FilterModel::Error(t))
                } else if lb.len() > 0 && rb.len() > 0 {
                    Err("unknown lint/level: "@ + l + seq!['='] + t)
                } else if lb.len() == 0 {
                    Err(seq!['\n'] + "{level}="@ + t + ": level cannot be empty"@)
                } else {
                    Err(seq!['\n'] + l + "={lint}: lint cannot be empty"@)
                }
            },
            None => Err(seq!['\n'] + "expected one of: warning | error.\ngot a lint: "@ + trimmed),
        }
    }
}

impl Filter {
    /// Parses one rule from text, as `spec_parse_filter` spells it out.
    pub fn from_str(input: &str) -> (r: Result<Filter, String>)
        ensures
            match spec_parse_filter(input@) {
                Ok(f) => r is Ok && r->Ok_0@ == f,
                Err(e) => r is Err && r->Err_0@ == e,
            },
    {
        broadcast use vstd::utf8::encode_utf8_valid_utf8;
        broadcast use vstd::utf8::encode_utf8_decode_utf8;

        let trimmed = trim_ascii(input);
        proof {
            assert(trimmed.spec_bytes() == spec_trim_ascii(encode_utf8(input@)));
        }
        let tb = trimmed.as_bytes();
        if tb.len() == 0 {
            return Err("input cannot be empty".to_owned());
        }
        match find_byte(tb, 61) {
            Some(i) => {
                proof {
                    lemma_find_byte_props(trimmed.spec_bytes(), 61);
                    assert(valid_utf8(trimmed.spec_bytes()));
                    vstd::utf8::is_char_boundary_iff_not_is_continuation_byte(
                        trimmed.spec_bytes(),
                        i as int,
                    );
                    assert(is_leading_byte_width_1(trimmed.spec_bytes()[i as int]));
                }
                let (l, rest) = trimmed.split_at(i);
                proof {
                    let sb = rest.spec_bytes();
                    vstd::utf8::valid_utf8_split(trimmed.spec_bytes(), i as int);
                    assert(sb =~= trimmed.spec_bytes().subrange(
                        i as int,
                        trimmed.spec_bytes().len() as int,
                    ));
                    assert(sb[0] == 61);
                    assert(length_of_first_scalar(sb) == 1);
                    assert(is_char_boundary(sb, 1)) by {
                        reveal_with_fuel(vstd::utf8::is_char_boundary, 2);
                        assert(pop_first_scalar(sb) == sb.subrange(1, sb.len() as int));
                    }
                }
                let (_, t) = rest.split_at(1);
                proof {
                    assert(l.spec_bytes() =~= spec_trim_ascii(encode_utf8(input@)).subrange(
                        0,
                        i as int,
                    ));
                    assert(t.spec_bytes() =~= spec_trim_ascii(encode_utf8(input@)).subrange(
                        i + 1,
                        spec_trim_ascii(encode_utf8(input@)).len() as int,
                    ));
                    if l.spec_bytes() == "warning".spec_bytes() {
                        crate::strops::lemma_encode_utf8_injective(l@, "warning"@);
                    }
                    if l.spec_bytes() == "error".spec_bytes() {
                        crate::strops::lemma_encode_utf8_injective(l@, "error"@);
                    }
                    if t.spec_bytes() == "all".spec_bytes() {
                        crate::strops::lemma_encode_utf8_injective(t@, "all"@);
                    }
                }
                if str_eq(l, "warning") && str_eq(t, "all") {
                    Ok(Filter::AllWarnings)
                } else if str_eq(l, "error") && str_eq(t, "all") {
                    Ok(Filter::AllErrors)
                } else if str_eq(l, "warning") && t.len() != 0 {
                    Ok(Filter::Warning(t.to_owned()))
                } else if str_eq(l, "error") && t.len() != 0 {
                    Ok(Filter::Error(t.to_owned()))
                } else if l.len() != 0 && t.len() != 0 {
                    let mut msg = "unknown lint/level: ".to_owned();
                    msg.append(l);
                    msg.append("=");
                    msg.append(t);
                    proof {
                        reveal_strlit("=");
                        assert("="@ =~= seq!['=']);
                    }
                    Err(msg)
                } else if l.len() == 0 {
                    let mut msg = "\n".to_owned();
                    msg.append("{level}=");
                    msg.append(t);
                    msg.append(": level cannot be empty");
                    proof {
                        reveal_strlit("\n");
                        assert("\n"@ =~= seq!['\n']);
                    }
                    Err(msg)
                } else {
                    let mut msg = "\n".to_owned();
                    msg.append(l);
                    msg.append("={lint}: lint cannot be empty");
                    proof {
                        reveal_strlit("\n");
                        assert("\n"@ =~= seq!['\n']);
                    }
                    Err(msg)
                }
            },
            None => {
                let mut msg = "\n".to_owned();
                msg.append("expected one of: warning | error.\ngot a lint: ");
                msg.append(trimmed);
                proof {
                    reveal_strlit("\n");
                    assert("\n"@ =~= seq!['\n']);
                }
                Err(msg)
            },
        }
    }
}

} // verus!
