//! The line-by-line command language: each line is one command that
//! prints, binds a variable or tests a condition. The functions here decide
//! what a line does; printing is left to the caller.
use vstd::prelude::*;
use crate::table::Table;

verus! {

/// Whether `c` has the Unicode `White_Space` property.
pub open spec fn is_whitespace(c: char) -> bool {
    let n = c as u32;
    ||| 0x09 <= n <= 0x0d
    ||| n == 0x20
    ||| n == 0x85
    ||| n == 0xa0
    ||| n == 0x1680
    ||| 0x2000 <= n <= 0x200a
    ||| n == 0x2028
    ||| n == 0x2029
    ||| n == 0x202f
    ||| n == 0x205f
    ||| n == 0x3000
}

/// `s` without its leading whitespace.
pub open spec fn trim_start(s: Seq<char>) -> Seq<char>
    decreases s.len(),
{
    if s.len() > 0 && is_whitespace(s[0]) {
        trim_start(s.drop_first())
    } else {
        s
    }
}

/// `s` without its trailing whitespace.
pub open spec fn trim_end(s: Seq<char>) -> Seq<char>
    decreases s.len(),
{
    if s.len() > 0 && is_whitespace(s.last()) {
        trim_end(s.drop_last())
    } else {
        s
    }
}

/// `s` without leading or trailing whitespace.
pub open spec fn trim(s: Seq<char>) -> Seq<char> {
    trim_end(trim_start(s))
}

/// `s` begins with `prefix`.
pub open spec fn starts_with(s: Seq<char>, prefix: Seq<char>) -> bool {
    prefix.len() <= s.len() && s.subrange(0, prefix.len() as int) == prefix
}

/// What follows `prefix` in `s`.
pub open spec fn after_prefix(s: Seq<char>, prefix: Seq<char>) -> Seq<char> {
    s.subrange(prefix.len() as int, s.len() as int)
}

/// `pat` occurs in `s` at position `i`.
pub open spec fn occurs_at(s: Seq<char>, pat: Seq<char>, i: int) -> bool {
    0 <= i && i + pat.len() <= s.len() && s.subrange(i, i + pat.len()) == pat
}

/// The first position, from `from` on, where `pat` occurs in `s`.
pub open spec fn find_from(s: Seq<char>, pat: Seq<char>, from: nat) -> Option<nat>
    decreases s.len() + 1 - from,
{
    if from + pat.len() > s.len() {
        None
    } else if occurs_at(s, pat, from as int) {
        Some(from)
    } else {
        find_from(s, pat, from + 1)
    }
}

/// `s` cut at the first occurrence of `pat`: what stands before it and what
/// follows it.
pub open spec fn split_once(s: Seq<char>, pat: Seq<char>) -> Option<(Seq<char>, Seq<char>)> {
    match find_from(s, pat, 0) {
        Some(i) => Some((s.subrange(0, i as int), s.subrange((i + pat.len()) as int, s.len() as int))),
        None => None,
    }
}

/// The value bound to `name`, or `name` itself when it is not bound.
pub open spec fn value_or_name(vars: Map<Seq<char>, Seq<char>>, name: Seq<char>) -> Seq<char> {
    if vars.contains_key(name) {
        vars[name]
    } else {
        name
    }
}

/// What a line asks the caller to show.
#[derive(Debug)]
pub enum LineOutput {
    /// Nothing to show.
    Silent,
    /// Text followed by a line break.
    PrintLine(String),
    /// Text with no line break.
    Print(String),
    /// A `cook` line with no `=`; `line` is the line's number.
    InvalidVariable { line: usize },
    /// A `sus` line with no `==`; `line` is the line's number.
    InvalidCondition { line: usize },
    /// A line that starts with no known command; `command` is the line
    /// without its surrounding whitespace.
    UnknownCommand { line: usize, command: String },
}

/// The model of a `LineOutput`.
pub enum LineOutputView {
    Silent,
    PrintLine(Seq<char>),
    Print(Seq<char>),
    InvalidVariable { line: usize },
    InvalidCondition { line: usize },
    UnknownCommand { line: usize, command: Seq<char> },
}

impl View for LineOutput {
    type V = LineOutputView;

    open spec fn view(&self) -> LineOutputView {
        match self {
            LineOutput::Silent => LineOutputView::Silent,
            LineOutput::PrintLine(s) => LineOutputView::PrintLine(s@),
            LineOutput::Print(s) => LineOutputView::Print(s@),
            LineOutput::InvalidVariable { line } => LineOutputView::InvalidVariable { line: *line },
            LineOutput::InvalidCondition { line } => LineOutputView::InvalidCondition { line: *line },
            LineOutput::UnknownCommand { line, command } => LineOutputView::UnknownCommand {
                line: *line,
                command: command@,
            },
        }
    }
}

/// What a line does: the variables and the last condition's result after
/// it, and what it shows.
pub open spec fn spec_execute_line(
    line: Seq<char>,
    vars: Map<Seq<char>, Seq<char>>,
    line_num: usize,
    last_if: bool,
) -> (Map<Seq<char>, Seq<char>>, bool, LineOutputView) {
    let l = trim(line);
    if l.len() == 0 || starts_with(l, ":)"@) {
        (vars, last_if, LineOutputView::Silent)
    } else if starts_with(l, "cow_sayln! "@) {
        let value = trim(after_prefix(l, "cow_sayln! "@));
        (vars, last_if, LineOutputView::PrintLine(value_or_name(vars, value)))
    } else if starts_with(l, "cow_say! "@) {
        let value = trim(after_prefix(l, "cow_say! "@));
        (vars, last_if, LineOutputView::Print(value_or_name(vars, value)))
    } else if starts_with(l, "cook "@) {
        match split_once(after_prefix(l, "cook "@), "="@) {
            Some((name, value)) => (vars.insert(trim(name), trim(value)), last_if, LineOutputView::Silent),
            None => (vars, last_if, LineOutputView::InvalidVariable { line: line_num }),
        }
    } else if starts_with(l, "sus "@) {
        match split_once(trim(after_prefix(l, "sus "@)), "=="@) {
            Some((left, right)) => (
                vars,
                value_or_name(vars, trim(left)) == trim(right),
                LineOutputView::Silent,
            ),
            None => (vars, last_if, LineOutputView::InvalidCondition { line: line_num }),
        }
    } else {
        (vars, last_if, LineOutputView::UnknownCommand { line: line_num, command: l })
    }
}

/// Whether `c` is whitespace, as `char::is_whitespace` decides.
pub fn char_is_whitespace(c: char) -> (r: bool)
    ensures
        r == is_whitespace(c),
{
    let n = c as u32;
    (0x09 <= n && n <= 0x0d) || n == 0x20 || n == 0x85 || n == 0xa0 || n == 0x1680 || (0x2000 <= n
        && n <= 0x200a) || n == 0x2028 || n == 0x2029 || n == 0x202f || n == 0x205f || n == 0x3000
}

/// `s` without leading or trailing whitespace.
pub fn trim_str(s: &str) -> (r: &str)
    ensures
        r@ == trim(s@),
{
    let n = s.unicode_len();
    let mut i: usize = 0;
    assert(s@.subrange(0, n as int) =~= s@);
    while i < n && char_is_whitespace(s.get_char(i))
        invariant
            n == s@.len(),
            i <= n,
            trim_start(s@) == trim_start(s@.subrange(i as int, n as int)),
        decreases n - i,
    {
        assert(s@.subrange(i as int, n as int).drop_first() =~= s@.subrange(i + 1, n as int));
        i = i + 1;
    }
    assert(trim_start(s@) == s@.subrange(i as int, n as int));
    let mut j: usize = n;
    while j > i && char_is_whitespace(s.get_char(j - 1))
        invariant
            n == s@.len(),
            i <= j <= n,
            trim(s@) == trim_end(s@.subrange(i as int, j as int)),
        decreases j - i,
    {
        assert(s@.subrange(i as int, j as int).drop_last() =~= s@.subrange(i as int, j - 1));
        j = j - 1;
    }
    s.substring_char(i, j)
}

/// Whether `s` begins with `prefix`.
pub fn str_starts_with(s: &str, prefix: &str) -> (r: bool)
    ensures
        r == starts_with(s@, prefix@),
{
    let n = s.unicode_len();
    let m = prefix.unicode_len();
    if m > n {
        return false;
    }
    let mut i: usize = 0;
    while i < m
        invariant
            n == s@.len(),
            m == prefix@.len(),
            m <= n,
            i <= m,
            forall|k: int| 0 <= k < i ==> s@[k] == prefix@[k],
        decreases m - i,
    {
        if s.get_char(i) != prefix.get_char(i) {
            assert(s@.subrange(0, m as int)[i as int] != prefix@[i as int]);
            return false;
        }
        i = i + 1;
    }
    assert(s@.subrange(0, m as int) =~= prefix@);
    true
}

/// The first position where `pat` occurs in `s`, if any.
pub fn str_find(s: &str, pat: &str) -> (r: Option<usize>)
    ensures
        match r {
            Some(i) => find_from(s@, pat@, 0) == Some(i as nat),
            None => find_from(s@, pat@, 0) is None,
        },
{
    let n = s.unicode_len();
    let m = pat.unicode_len();
    if m > n {
        return None;
    }
    let mut i: usize = 0;
    while i <= n - m
        invariant
            n == s@.len(),
            m == pat@.len(),
            m <= n,
            i <= n - m + 1,
            find_from(s@, pat@, 0) == find_from(s@, pat@, i as nat),
        decreases n - m + 1 - i,
    {
        let mut k: usize = 0;
        let mut same = true;
        while k < m
            invariant
                n == s@.len(),
                m == pat@.len(),
                i + m <= n,
                k <= m,
                same <==> forall|t: int| 0 <= t < k ==> s@[i + t] == pat@[t],
            decreases m - k,
        {
            if s.get_char(i + k) != pat.get_char(k) {
                same = false;
            }
            k = k + 1;
        }
        if same {
            assert(s@.subrange(i as int, i + m) =~= pat@);
            return Some(i);
        }
        assert(!occurs_at(s@, pat@, i as int)) by {
            let t = choose|t: int| 0 <= t < m && s@[i + t] != pat@[t];
            assert(s@.subrange(i as int, i + m)[t] != pat@[t]);
        }
        i = i + 1;
    }
    None
}

/// `s` cut at the first occurrence of `pat`.
pub fn str_split_once<'a>(s: &'a str, pat: &str) -> (r: Option<(&'a str, &'a str)>)
    ensures
        match r {
            Some((a, b)) => split_once(s@, pat@) == Some((a@, b@)),
            None => split_once(s@, pat@) is None,
        },
{
    match str_find(s, pat) {
        Some(i) => {
            let n = s.unicode_len();
            let m = pat.unicode_len();
            proof {
                lemma_find_from_occurs(s@, pat@, 0);
            }
            Some((s.substring_char(0, i), s.substring_char(i + m, n)))
        },
        None => None,
    }
}

/// Where `find_from` finds `pat`, `pat` occurs, at or after `from`.
pub proof fn lemma_find_from_occurs(s: Seq<char>, pat: Seq<char>, from: nat)
    ensures
        find_from(s, pat, from) matches Some(i) ==> from <= i && occurs_at(s, pat, i as int),
    decreases s.len() + 1 - from,
{
    if from + pat.len() <= s.len() && !occurs_at(s, pat, from as int) {
        lemma_find_from_occurs(s, pat, from + 1);
    }
}

/// The value bound to `name` in `vars`, or `name` itself.
fn lookup_or_name(vars: &Table<String>, name: &str) -> (r: String)
    requires
        vars.wf(),
    ensures
        r@ == value_or_name(vars@, name@),
{
    let key = String::from_str(name);
    match vars.get(&key) {
        Some(v) => v.clone(),
        None => key,
    }
}

/// Runs one line of the command language.
///
/// Blank lines and lines that start with `:)` do nothing. `cow_sayln! x`
/// and `cow_say! x` show the value of the variable `x`, or `x` itself when
/// no such variable is bound, with or without a line break. `cook name =
/// value` binds `name` to `value`. `sus left == right` records whether the
/// value of `left` (or `left` itself) equals `right`. Any other line is an
/// unknown command. Names and values are taken without surrounding
/// whitespace.
pub fn execute_line(
    line: &str,
    variables: &mut Table<String>,
    line_num: usize,
    last_if_result: &mut bool,
) -> (out: LineOutput)
    requires
        old(variables).wf(),
    ensures
        final(variables).wf(),
        (final(variables)@, *final(last_if_result), out@) == spec_execute_line(
            line@,
            old(variables)@,
            line_num,
            *old(last_if_result),
        ),
{
    let line = trim_str(line);
    let n = line.unicode_len();
    if n == 0 {
        return LineOutput::Silent;
    }
    if str_starts_with(line, ":)") {
        return LineOutput::Silent;
    }
    if str_starts_with(line, "cow_sayln! ") {
        let start = "cow_sayln! ".unicode_len();
        let value = trim_str(line.substring_char(start, n));
        LineOutput::PrintLine(lookup_or_name(variables, value))
    } else if str_starts_with(line, "cow_say! ") {
        let start = "cow_say! ".unicode_len();
        let value = trim_str(line.substring_char(start, n));
        LineOutput::Print(lookup_or_name(variables, value))
    } else if str_starts_with(line, "cook ") {
        let start = "cook ".unicode_len();
        let rest = line.substring_char(start, n);
        match str_split_once(rest, "=") {
            Some((name, value)) => {
                variables.insert(String::from_str(trim_str(name)), String::from_str(trim_str(value)));
                LineOutput::Silent
            },
            None => LineOutput::InvalidVariable { line: line_num },
        }
    } else if str_starts_with(line, "sus ") {
        let start = "sus ".unicode_len();
        let condition = trim_str(line.substring_char(start, n));
        match str_split_once(condition, "==") {
            Some((left, right)) => {
                let left_value = lookup_or_name(variables, trim_str(left));
                let right = String::from_str(trim_str(right));
                *last_if_result = left_value == right;
                LineOutput::Silent
            },
            None => LineOutput::InvalidCondition { line: line_num },
        }
    } else {
        LineOutput::UnknownCommand { line: line_num, command: String::from_str(line) }
    }
}

/// A sequence whose first and last characters are not whitespace is its
/// own trimmed form.
pub proof fn lemma_trim_unchanged(s: Seq<char>)
    requires
        s.len() > 0,
        !is_whitespace(s[0]),
        !is_whitespace(s.last()),
    ensures
        trim(s) == s,
{
}

/// What is left after trimming the start begins with a character that is
/// not whitespace.
proof fn lemma_trim_start_first(s: Seq<char>)
    ensures
        trim_start(s).len() > 0 ==> !is_whitespace(trim_start(s)[0]),
    decreases s.len(),
{
    if s.len() > 0 && is_whitespace(s[0]) {
        lemma_trim_start_first(s.drop_first());
    }
}

/// Trimming the end keeps a prefix, which ends with a character that is not
/// whitespace.
proof fn lemma_trim_end_prefix(s: Seq<char>)
    ensures
        trim_end(s).len() <= s.len(),
        trim_end(s) == s.subrange(0, trim_end(s).len() as int),
        trim_end(s).len() > 0 ==> !is_whitespace(trim_end(s).last()),
    decreases s.len(),
{
    if s.len() > 0 && is_whitespace(s.last()) {
        lemma_trim_end_prefix(s.drop_last());
        assert(s.drop_last().subrange(0, trim_end(s).len() as int) =~= s.subrange(
            0,
            trim_end(s).len() as int,
        ));
    } else {
        assert(s.subrange(0, s.len() as int) =~= s);
    }
}

/// A trimmed sequence that is not empty starts and ends with characters
/// that are not whitespace; trimming it again changes nothing.
pub proof fn lemma_trim_idempotent(s: Seq<char>)
    ensures
        trim(s).len() > 0 ==> !is_whitespace(trim(s)[0]) && !is_whitespace(trim(s).last()),
        trim(trim(s)) == trim(s),
{
    lemma_trim_start_first(s);
    lemma_trim_end_prefix(trim_start(s));
    if trim(s).len() > 0 {
        assert(trim(s)[0] == trim_start(s)[0]);
        lemma_trim_unchanged(trim(s));
    }
}

/// The search from `from` stops at `i` when `pat` occurs there and at no
/// position between.
proof fn lemma_find_first(s: Seq<char>, pat: Seq<char>, from: nat, i: nat)
    requires
        from <= i,
        occurs_at(s, pat, i as int),
        forall|j: int| from <= j < i ==> !occurs_at(s, pat, j),
    ensures
        find_from(s, pat, from) == Some(i),
    decreases i - from,
{
    if from < i {
        lemma_find_first(s, pat, from + 1, i);
    }
}

/// Binding a name with `cook` and then showing it with `cow_sayln!` shows
/// the value just bound: the first line binds the trimmed name to the
/// trimmed value and shows nothing, and the second shows that value and
/// changes nothing.
pub proof fn lemma_cook_then_say(
    vars: Map<Seq<char>, Seq<char>>,
    name: Seq<char>,
    value: Seq<char>,
    n1: usize,
    n2: usize,
    last: bool,
)
    requires
        !name.contains('='),
        trim(name).len() > 0,
        trim_end(value) == value,
    ensures
        ({
            let (vars1, last1, out1) = spec_execute_line("cook "@ + name + "="@ + value, vars, n1, last);
            let (vars2, last2, out2) = spec_execute_line("cow_sayln! "@ + trim(name), vars1, n2, last1);
            &&& vars1 == vars.insert(trim(name), trim(value))
            &&& last1 == last
            &&& out1 == LineOutputView::Silent
            &&& vars2 == vars1
            &&& last2 == last1
            &&& out2 == LineOutputView::PrintLine(trim(value))
        }),
{
    reveal_strlit("cook ");
    reveal_strlit("=");
    reveal_strlit(":)");
    reveal_strlit("cow_sayln! ");
    reveal_strlit("cow_say! ");
    let line1 = "cook "@ + name + "="@ + value;
    let rest = name + "="@ + value;
    assert(line1[0] == 'c' && line1[2] == 'o');
    assert(value.len() > 0 ==> !is_whitespace(value.last())) by {
        if value.len() > 0 && is_whitespace(value.last()) {
            lemma_trim_end_prefix(value.drop_last());
        }
    }
    assert(line1.last() == if value.len() > 0 { value.last() } else { '=' });
    lemma_trim_unchanged(line1);
    assert(!starts_with(line1, ":)"@)) by {
        if starts_with(line1, ":)"@) {
            assert(line1.subrange(0, 2)[0] == ':');
        }
    }
    assert(!starts_with(line1, "cow_sayln! "@)) by {
        if starts_with(line1, "cow_sayln! "@) {
            assert(line1.subrange(0, 11)[2] == 'w');
        }
    }
    assert(!starts_with(line1, "cow_say! "@)) by {
        if starts_with(line1, "cow_say! "@) {
            assert(line1.subrange(0, 9)[2] == 'w');
        }
    }
    assert(line1.subrange(0, 5) =~= "cook "@);
    assert(after_prefix(line1, "cook "@) =~= rest);
    assert(occurs_at(rest, "="@, name.len() as int)) by {
        assert(rest.subrange(name.len() as int, name.len() + 1int) =~= "="@);
    }
    assert forall|j: int| 0 <= j < name.len() implies !occurs_at(rest, "="@, j) by {
        if occurs_at(rest, "="@, j) {
            assert(rest.subrange(j, j + 1)[0] == rest[j]);
            assert(name[j] == '=');
        }
    }
    lemma_find_first(rest, "="@, 0, name.len());
    assert(rest.subrange(0, name.len() as int) =~= name);
    assert(rest.subrange(name.len() + 1int, rest.len() as int) =~= value);
    let vars1 = vars.insert(trim(name), trim(value));
    let tn = trim(name);
    let line2 = "cow_sayln! "@ + tn;
    lemma_trim_idempotent(name);
    assert(line2[0] == 'c');
    assert(line2.last() == tn.last());
    lemma_trim_unchanged(line2);
    assert(!starts_with(line2, ":)"@)) by {
        if starts_with(line2, ":)"@) {
            assert(line2.subrange(0, 2)[0] == ':');
        }
    }
    assert(line2.subrange(0, 11) =~= "cow_sayln! "@);
    assert(after_prefix(line2, "cow_sayln! "@) =~= tn);
}

/// `sus left == right` records whether the value of `left` (or `left`
/// itself, when no such variable is bound) is the whole text `right`,
/// trimmed: the result is false whenever the two differ in length, so a
/// value that merely starts with `right` does not count. The line changes
/// no variable and shows nothing.
pub proof fn lemma_sus_records_equality(
    vars: Map<Seq<char>, Seq<char>>,
    left: Seq<char>,
    right: Seq<char>,
    line_num: usize,
    last: bool,
)
    requires
        left.len() > 0,
        trim(left) == left,
        !left.contains('='),
        trim_end(right) == right,
    ensures
        ({
            let (vars1, last1, out) = spec_execute_line("sus "@ + left + "=="@ + right, vars, line_num, last);
            &&& vars1 == vars
            &&& out == LineOutputView::Silent
            &&& last1 == (value_or_name(vars, left) == trim(right))
            &&& value_or_name(vars, left).len() != trim(right).len() ==> !last1
        }),
{
    reveal_strlit("sus ");
    reveal_strlit("==");
    reveal_strlit(":)");
    reveal_strlit("cow_sayln! ");
    reveal_strlit("cow_say! ");
    reveal_strlit("cook ");
    let cond = left + "=="@ + right;
    let line = "sus "@ + cond;
    assert(line =~= "sus "@ + left + "=="@ + right);
    lemma_trim_idempotent(left);
    assert(right.len() > 0 ==> !is_whitespace(right.last())) by {
        if right.len() > 0 && is_whitespace(right.last()) {
            lemma_trim_end_prefix(right.drop_last());
        }
    }
    assert(line[0] == 's');
    assert(line.last() == if right.len() > 0 { right.last() } else { '=' });
    lemma_trim_unchanged(line);
    assert(!starts_with(line, ":)"@)) by {
        if starts_with(line, ":)"@) {
            assert(line.subrange(0, 2)[0] == ':');
        }
    }
    assert(!starts_with(line, "cow_sayln! "@)) by {
        if starts_with(line, "cow_sayln! "@) {
            assert(line.subrange(0, 11)[0] == 'c');
        }
    }
    assert(!starts_with(line, "cow_say! "@)) by {
        if starts_with(line, "cow_say! "@) {
            assert(line.subrange(0, 9)[0] == 'c');
        }
    }
    assert(!starts_with(line, "cook "@)) by {
        if starts_with(line, "cook "@) {
            assert(line.subrange(0, 5)[0] == 'c');
        }
    }
    assert(line.subrange(0, 4) =~= "sus "@);
    assert(after_prefix(line, "sus "@) =~= cond);
    assert(cond[0] == left[0]);
    assert(cond.last() == if right.len() > 0 { right.last() } else { '=' });
    lemma_trim_unchanged(cond);
    assert(occurs_at(cond, "=="@, left.len() as int)) by {
        assert(cond.subrange(left.len() as int, left.len() + 2int) =~= "=="@);
    }
    assert forall|j: int| 0 <= j < left.len() implies !occurs_at(cond, "=="@, j) by {
        if occurs_at(cond, "=="@, j) {
            assert(cond.subrange(j, j + 2)[0] == cond[j]);
            assert(left[j] == '=');
        }
    }
    lemma_find_first(cond, "=="@, 0, left.len());
    assert(cond.subrange(0, left.len() as int) =~= left);
    assert(cond.subrange(left.len() + 2int, cond.len() as int) =~= right);
}

/// `cow_sayln! name` shows the value of `name`, or `name` itself when no
/// such variable is bound, followed by a line break; `cow_say! name` shows
/// the same with no line break. Neither changes anything.
pub proof fn lemma_say_lines(vars: Map<Seq<char>, Seq<char>>, name: Seq<char>, line_num: usize, last: bool)
    requires
        name.len() > 0,
        trim(name) == name,
    ensures
        spec_execute_line("cow_sayln! "@ + name, vars, line_num, last) == (
            vars,
            last,
            LineOutputView::PrintLine(value_or_name(vars, name)),
        ),
        spec_execute_line("cow_say! "@ + name, vars, line_num, last) == (
            vars,
            last,
            LineOutputView::Print(value_or_name(vars, name)),
        ),
{
    reveal_strlit(":)");
    reveal_strlit("cow_sayln! ");
    reveal_strlit("cow_say! ");
    lemma_trim_idempotent(name);
    let l1 = "cow_sayln! "@ + name;
    let l2 = "cow_say! "@ + name;
    assert(l1[0] == 'c' && l1.last() == name.last());
    assert(l2[0] == 'c' && l2.last() == name.last());
    lemma_trim_unchanged(l1);
    lemma_trim_unchanged(l2);
    assert(!starts_with(l1, ":)"@)) by {
        if starts_with(l1, ":)"@) {
            assert(l1.subrange(0, 2)[0] == ':');
        }
    }
    assert(!starts_with(l2, ":)"@)) by {
        if starts_with(l2, ":)"@) {
            assert(l2.subrange(0, 2)[0] == ':');
        }
    }
    assert(l1.subrange(0, 11) =~= "cow_sayln! "@);
    assert(after_prefix(l1, "cow_sayln! "@) =~= name);
    assert(!starts_with(l2, "cow_sayln! "@)) by {
        if starts_with(l2, "cow_sayln! "@) {
            assert(l2.subrange(0, 11)[7] == 'l');
        }
    }
    assert(l2.subrange(0, 9) =~= "cow_say! "@);
    assert(after_prefix(l2, "cow_say! "@) =~= name);
}

/// With no `=` in it, `pat` cannot be found from any position.
proof fn lemma_find_none(s: Seq<char>, from: nat)
    requires
        !s.contains('='),
    ensures
        find_from(s, "="@, from) is None,
    decreases s.len() + 1 - from,
{
    reveal_strlit("=");
    if from + 1 <= s.len() {
        assert(!occurs_at(s, "="@, from as int)) by {
            if occurs_at(s, "="@, from as int) {
                assert(s.subrange(from as int, from + 1int)[0] == s[from as int]);
            }
        }
        lemma_find_none(s, from + 1);
    }
}

/// `cook` followed by text with no `=` is invalid: it binds nothing and
/// reports the line's number.
pub proof fn lemma_cook_without_equal_sign(
    vars: Map<Seq<char>, Seq<char>>,
    rest: Seq<char>,
    line_num: usize,
    last: bool,
)
    requires
        !rest.contains('='),
        rest.len() > 0,
        !is_whitespace(rest.last()),
    ensures
        spec_execute_line("cook "@ + rest, vars, line_num, last) == (
            vars,
            last,
            LineOutputView::InvalidVariable { line: line_num },
        ),
{
    reveal_strlit("cook ");
    reveal_strlit(":)");
    reveal_strlit("cow_sayln! ");
    reveal_strlit("cow_say! ");
    let l = "cook "@ + rest;
    assert(l[0] == 'c' && l[2] == 'o' && l.last() == rest.last());
    lemma_trim_unchanged(l);
    assert(!starts_with(l, ":)"@)) by {
        if starts_with(l, ":)"@) {
            assert(l.subrange(0, 2)[0] == ':');
        }
    }
    assert(!starts_with(l, "cow_sayln! "@)) by {
        if starts_with(l, "cow_sayln! "@) {
            assert(l.subrange(0, 11)[2] == 'w');
        }
    }
    assert(!starts_with(l, "cow_say! "@)) by {
        if starts_with(l, "cow_say! "@) {
            assert(l.subrange(0, 9)[2] == 'w');
        }
    }
    assert(l.subrange(0, 5) =~= "cook "@);
    assert(after_prefix(l, "cook "@) =~= rest);
    lemma_find_none(rest, 0);
}

/// A line that is blank, or whose first non-blank characters are `:)`,
/// changes nothing and shows nothing.
pub proof fn lemma_comment_lines(
    vars: Map<Seq<char>, Seq<char>>,
    line: Seq<char>,
    line_num: usize,
    last: bool,
)
    ensures
        trim(line).len() == 0 || starts_with(trim(line), ":)"@) ==> spec_execute_line(line, vars, line_num, last)
            == (vars, last, LineOutputView::Silent),
{
}

/// Only a `cook` line changes the variables, and only a `sus` line changes
/// the result of the last condition.
pub proof fn lemma_line_effects(line: Seq<char>, vars: Map<Seq<char>, Seq<char>>, line_num: usize, last: bool)
    ensures
        spec_execute_line(line, vars, line_num, last).0 != vars ==> starts_with(trim(line), "cook "@),
        spec_execute_line(line, vars, line_num, last).1 != last ==> starts_with(trim(line), "sus "@),
{
}

} // verus!
