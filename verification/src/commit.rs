//! The commit data model, the message formatter and the message validator.
use vstd::prelude::*;
use vstd::string::StringExecFns;

verus! {

/// The fields of one commit message in progress.
///
/// `breaking_change_description` is kept even while `breaking_change` is
/// false, but it is never rendered unless the flag is set.
#[derive(Debug)]
pub struct ConventionalCommit {
    pub commit_type: String,
    pub scope: Option<String>,
    pub description: String,
    pub body: Option<String>,
    pub breaking_change: bool,
    pub breaking_change_description: String,
}

/// The mathematical value of a [`ConventionalCommit`]: each text field as a
/// sequence of characters.
pub struct CommitView {
    pub commit_type: Seq<char>,
    pub scope: Option<Seq<char>>,
    pub description: Seq<char>,
    pub body: Option<Seq<char>>,
    pub breaking_change: bool,
    pub breaking_change_description: Seq<char>,
}

impl View for ConventionalCommit {
    type V = CommitView;

    open spec fn view(&self) -> CommitView {
        CommitView {
            commit_type: self.commit_type@,
            scope: match self.scope {
                Some(s) => Some(s@),
                None => None,
            },
            description: self.description@,
            body: match self.body {
                Some(b) => Some(b@),
                None => None,
            },
            breaking_change: self.breaking_change,
            breaking_change_description: self.breaking_change_description@,
        }
    }
}

/// The model a session starts from: type `feat`, everything else unset.
pub open spec fn spec_default_commit() -> CommitView {
    CommitView {
        commit_type: "feat"@,
        scope: None,
        description: Seq::<char>::empty(),
        body: None,
        breaking_change: false,
        breaking_change_description: Seq::<char>::empty(),
    }
}

impl Default for ConventionalCommit {
    fn default() -> (r: Self)
        ensures
            r@ == spec_default_commit(),
    {
        ConventionalCommit {
            commit_type: String::from_str("feat"),
            scope: None,
            description: String::new(),
            body: None,
            breaking_change: false,
            breaking_change_description: String::new(),
        }
    }
}

/// The scope segment of a header: `(label)` when a scope is set, nothing
/// otherwise.
pub open spec fn scope_part(scope: Option<Seq<char>>) -> Seq<char> {
    match scope {
        Some(s) => seq!['('] + s + seq![')'],
        None => Seq::<char>::empty(),
    }
}

/// The breaking marker of a header: `!` when the breaking flag is set.
pub open spec fn bang_part(breaking: bool) -> Seq<char> {
    if breaking {
        seq!['!']
    } else {
        Seq::<char>::empty()
    }
}

/// The separator between the header's grammar part and the description.
pub open spec fn colon_space() -> Seq<char> {
    seq![':', ' ']
}

/// The header of a formatted message:
/// `<type><optional "(scope)"><optional "!">: <description>`.
pub open spec fn spec_header(c: CommitView) -> Seq<char> {
    c.commit_type + scope_part(c.scope) + bang_part(c.breaking_change) + colon_space()
        + c.description
}

/// The body block: a blank line, then the body verbatim; nothing when the
/// body is unset.
pub open spec fn spec_body_block(c: CommitView) -> Seq<char> {
    match c.body {
        Some(b) => seq!['\n', '\n'] + b,
        None => Seq::<char>::empty(),
    }
}

/// The literal label that opens a breaking-change footer.
pub open spec fn breaking_label() -> Seq<char> {
    "BREAKING CHANGE: "@
}

/// The breaking footer: emitted only when the breaking flag is set and the
/// breaking-change description is non-empty.
pub open spec fn spec_footer(c: CommitView) -> Seq<char> {
    if c.breaking_change && c.breaking_change_description.len() > 0 {
        seq!['\n', '\n'] + breaking_label() + c.breaking_change_description
    } else {
        Seq::<char>::empty()
    }
}

/// The whole formatted message: header, body block, footer, in that order,
/// with nothing in between or after.
pub open spec fn spec_generate(c: CommitView) -> Seq<char> {
    spec_header(c) + spec_body_block(c) + spec_footer(c)
}

impl ConventionalCommit {
    /// Renders the commit message this model describes.
    pub fn generate(&self) -> (r: String)
        ensures
            r@ == spec_generate(self@),
    {
        let mut out = String::new();
        out.append(self.commit_type.as_str());
        match &self.scope {
            Some(s) => {
                out.append("(");
                out.append(s.as_str());
                out.append(")");
            },
            None => {},
        }
        if self.breaking_change {
            out.append("!");
        }
        out.append(": ");
        out.append(self.description.as_str());
        match &self.body {
            Some(b) => {
                out.append("\n\n");
                out.append(b.as_str());
            },
            None => {},
        }
        if self.breaking_change && !self.breaking_change_description.as_str().is_empty() {
            out.append("\n\nBREAKING CHANGE: ");
            out.append(self.breaking_change_description.as_str());
        }
        proof {
            reveal_strlit("(");
            reveal_strlit(")");
            reveal_strlit("!");
            reveal_strlit(": ");
            reveal_strlit("\n\n");
            reveal_strlit("\n\nBREAKING CHANGE: ");
            reveal_strlit("BREAKING CHANGE: ");
            assert(out@ =~= spec_generate(self@));
        }
        out
    }
}

/// A lowercase ASCII letter, the alphabet of a commit type.
pub open spec fn is_lower_alpha(c: char) -> bool {
    'a' as u32 <= c as u32 && c as u32 <= 'z' as u32
}

/// A character allowed inside a parenthesized scope: anything but
/// parentheses and line breaks.
pub open spec fn is_scope_char(c: char) -> bool {
    c != '(' && c != ')' && c != '\r' && c != '\n'
}

pub open spec fn all_lower_alpha(s: Seq<char>) -> bool {
    forall|i: int| 0 <= i < s.len() ==> is_lower_alpha(#[trigger] s[i])
}

pub open spec fn all_scope_chars(s: Seq<char>) -> bool {
    forall|i: int| 0 <= i < s.len() ==> is_scope_char(#[trigger] s[i])
}

/// One decomposition of a line as `<type>` `(<scope>)`? `!`? `": "`
/// `<description…>`: the type is one or more lowercase letters, the scope
/// holds no parentheses and no line breaks, and at least one character that
/// is not a line break follows the `": "`. Anything may follow that first
/// description character.
pub open spec fn header_shape(
    line: Seq<char>,
    ty: Seq<char>,
    scope: Option<Seq<char>>,
    bang: bool,
    rest: Seq<char>,
) -> bool {
    &&& line == ty + scope_part(scope) + bang_part(bang) + colon_space() + rest
    &&& ty.len() >= 1
    &&& all_lower_alpha(ty)
    &&& (scope matches Some(s) ==> all_scope_chars(s))
    &&& rest.len() >= 1
    &&& rest[0] != '\r'
    &&& rest[0] != '\n'
}

/// A line conforms to the grammar when some decomposition fits it.
pub open spec fn is_conventional_header(line: Seq<char>) -> bool {
    exists|ty: Seq<char>, scope: Option<Seq<char>>, bang: bool, rest: Seq<char>|
        header_shape(line, ty, scope, bang, rest)
}

/// The same decomposition, written with the type length `t` and optional
/// scope length, which the parser's index arithmetic matches directly.
pub open spec fn shape_idx(line: Seq<char>, t: int, sopt: Option<int>, bang: bool) -> bool {
    let p = t + (match sopt {
        Some(sl) => sl + 2,
        None => 0,
    });
    let q = p + (if bang {
        1int
    } else {
        0int
    });
    &&& 1 <= t
    &&& (forall|k: int| 0 <= k < t ==> is_lower_alpha(#[trigger] line[k]))
    &&& (match sopt {
        Some(sl) => {
            &&& sl >= 0
            &&& t < line.len()
            &&& line[t] == '('
            &&& (forall|k: int| t + 1 <= k < t + 1 + sl ==> is_scope_char(#[trigger] line[k]))
            &&& t + 1 + sl < line.len()
            &&& line[t + 1 + sl] == ')'
        },
        None => true,
    })
    &&& (bang ==> p < line.len() && line[p] == '!')
    &&& q + 2 < line.len()
    &&& line[q] == ':'
    &&& line[q + 1] == ' '
    &&& line[q + 2] != '\r'
    &&& line[q + 2] != '\n'
}

/// An index decomposition yields a sequence decomposition.
proof fn lemma_idx_to_shape(line: Seq<char>, t: int, sopt: Option<int>, bang: bool)
    requires
        shape_idx(line, t, sopt, bang),
    ensures
        is_conventional_header(line),
{
    let p = t + (match sopt {
        Some(sl) => sl + 2,
        None => 0,
    });
    let q = p + (if bang {
        1int
    } else {
        0int
    });
    let ty = line.subrange(0, t);
    let rest = line.subrange(q + 2, line.len() as int);
    assert(rest[0] == line[q + 2]);
    match sopt {
        Some(sl) => {
            let s = line.subrange(t + 1, t + 1 + sl);
            assert(line =~= ty + scope_part(Some(s)) + bang_part(bang) + colon_space() + rest);
            assert(header_shape(line, ty, Some(s), bang, rest));
        },
        None => {
            assert(line =~= ty + scope_part(None) + bang_part(bang) + colon_space() + rest);
            assert(header_shape(line, ty, None, bang, rest));
        },
    }
}

/// A sequence decomposition yields an index decomposition.
proof fn lemma_shape_to_idx(
    line: Seq<char>,
    ty: Seq<char>,
    scope: Option<Seq<char>>,
    bang: bool,
    rest: Seq<char>,
)
    requires
        header_shape(line, ty, scope, bang, rest),
    ensures
        shape_idx(
            line,
            ty.len() as int,
            match scope {
                Some(s) => Some(s.len() as int),
                None => None,
            },
            bang,
        ),
{
    let t = ty.len() as int;
    let sopt: Option<int> = match scope {
        Some(s) => Some(s.len() as int),
        None => None,
    };
    let p = t + (match sopt {
        Some(sl) => sl + 2,
        None => 0,
    });
    let q = p + (if bang {
        1int
    } else {
        0int
    });
    assert forall|k: int| 0 <= k < t implies is_lower_alpha(#[trigger] line[k]) by {
        assert(line[k] == ty[k]);
    }
    match scope {
        Some(s) => {
            let sl = s.len() as int;
            assert(line[t] == '(');
            assert forall|k: int| t + 1 <= k < t + 1 + sl implies is_scope_char(
                #[trigger] line[k],
            ) by {
                assert(line[k] == s[k - (t + 1)]);
            }
            assert(line[t + 1 + sl] == ')');
        },
        None => {},
    }
    if bang {
        assert(line[p] == '!');
    }
    assert(line.len() == q + 2 + rest.len());
    assert(line[q] == ':');
    assert(line[q + 1] == ' ');
    assert(line[q + 2] == rest[0]);
}

/// Whatever index decomposition a line has, the type run the parser scans
/// pins it down: the type ends exactly at the first character that is not a
/// lowercase letter.
proof fn lemma_idx_forced_type(line: Seq<char>, t: int, sopt: Option<int>, bang: bool, i: int)
    requires
        shape_idx(line, t, sopt, bang),
        0 <= i <= line.len(),
        forall|k: int| 0 <= k < i ==> is_lower_alpha(#[trigger] line[k]),
        i == line.len() || !is_lower_alpha(line[i]),
    ensures
        t == i,
{
    let p = t + (match sopt {
        Some(sl) => sl + 2,
        None => 0,
    });
    if t < i {
        // the character right after the type is '(' , '!' or ':', none of
        // which is a lowercase letter, yet position t is inside the scanned
        // lowercase run
        match sopt {
            Some(sl) => {
                assert(line[t] == '(');
            },
            None => {
                if bang {
                    assert(line[t] == '!');
                } else {
                    assert(line[t] == ':');
                }
            },
        }
        assert(is_lower_alpha(line[t]));
        assert(false);
    }
    if t > i {
        // position i lies inside the type, so it is a lowercase letter,
        // yet the scan stopped there
        assert(t < line.len());
        assert(is_lower_alpha(line[i]));
        assert(false);
    }
}

/// With the type pinned and a scope opened, the scope scan pins the closing
/// parenthesis: it is the first character after the opening one that no
/// scope may contain.
proof fn lemma_idx_forced_scope(line: Seq<char>, t: int, sl: int, bang: bool, j: int)
    requires
        shape_idx(line, t, Some(sl), bang),
        t + 1 <= j <= line.len(),
        forall|k: int| t + 1 <= k < j ==> is_scope_char(#[trigger] line[k]),
        j == line.len() || !is_scope_char(line[j]),
    ensures
        j == t + 1 + sl,
        j < line.len(),
        line[j] == ')',
{
    if j < t + 1 + sl {
        assert(is_scope_char(line[j]));
        assert(false);
    }
    if j > t + 1 + sl {
        assert(!is_scope_char(line[t + 1 + sl]));
        assert(false);
    }
}

fn is_lower_alpha_exec(c: char) -> (r: bool)
    ensures
        r == is_lower_alpha(c),
{
    let u = c as u32;
    'a' as u32 <= u && u <= 'z' as u32
}

fn is_scope_char_exec(c: char) -> (r: bool)
    ensures
        r == is_scope_char(c),
{
    c != '(' && c != ')' && c != '\r' && c != '\n'
}

/// Decides whether a line conforms to the header grammar.
pub fn header_matches(line: &str) -> (r: bool)
    ensures
        r == is_conventional_header(line@),
{
    let ghost ls = line@;
    let n = line.unicode_len();
    // the type: the maximal run of lowercase letters at the start
    let mut i: usize = 0;
    while i < n && is_lower_alpha_exec(line.get_char(i))
        invariant
            0 <= i <= n,
            n == ls.len(),
            ls == line@,
            forall|k: int| 0 <= k < i ==> is_lower_alpha(#[trigger] ls[k]),
        decreases n - i,
    {
        i += 1;
    }
    assert(i == n || !is_lower_alpha(ls[i as int]));
    if i == 0 {
        proof {
            if is_conventional_header(ls) {
                let (ty, scope, bang0, rest) = choose|
                    ty: Seq<char>,
                    scope: Option<Seq<char>>,
                    bang0: bool,
                    rest: Seq<char>,
                | header_shape(ls, ty, scope, bang0, rest);
                lemma_shape_to_idx(ls, ty, scope, bang0, rest);
                let sopt: Option<int> = match scope {
                    Some(s) => Some(s.len() as int),
                    None => None,
                };
                lemma_idx_forced_type(ls, ty.len() as int, sopt, bang0, 0);
            }
        }
        return false;
    }
    // the optional parenthesized scope
    let mut pos = i;
    let ghost mut sopt: Option<int> = None;
    if pos < n && line.get_char(pos) == '(' {
        let mut j = pos + 1;
        while j < n && is_scope_char_exec(line.get_char(j))
            invariant
                i + 1 <= j <= n,
                n == ls.len(),
                ls == line@,
                forall|k: int| i + 1 <= k < j ==> is_scope_char(#[trigger] ls[k]),
            decreases n - j,
        {
            j += 1;
        }
        assert(j == n || !is_scope_char(ls[j as int]));
        if j == n || line.get_char(j) != ')' {
            proof {
                if is_conventional_header(ls) {
                    let (ty, scope, bang0, rest) = choose|
                        ty: Seq<char>,
                        scope: Option<Seq<char>>,
                        bang0: bool,
                        rest: Seq<char>,
                    | header_shape(ls, ty, scope, bang0, rest);
                    lemma_shape_to_idx(ls, ty, scope, bang0, rest);
                    let so: Option<int> = match scope {
                        Some(s) => Some(s.len() as int),
                        None => None,
                    };
                    lemma_idx_forced_type(ls, ty.len() as int, so, bang0, i as int);
                    match so {
                        Some(sl) => {
                            lemma_idx_forced_scope(ls, i as int, sl, bang0, j as int);
                        },
                        None => {
                            // with no scope the character after the type is
                            // '!' or ':', not the '(' the parser saw
                            if bang0 {
                                assert(ls[i as int] == '!');
                            } else {
                                assert(ls[i as int] == ':');
                            }
                        },
                    }
                }
            }
            return false;
        }
        proof {
            sopt = Some(j as int - i as int - 1);
        }
        pos = j + 1;
    }
    // from here on, any decomposition must place '!', ':' and ' ' right
    // where the parser now stands
    let ghost after_scope = pos as int;
    let bang = pos < n && line.get_char(pos) == '!';
    if bang {
        pos = pos + 1;
    }
    if !(pos < n && line.get_char(pos) == ':') {
        proof {
            if is_conventional_header(ls) {
                lemma_forced_tail(ls, i as int, sopt, after_scope, bang);
                assert(false);
            }
        }
        return false;
    }
    if !(pos + 1 < n && line.get_char(pos + 1) == ' ') {
        proof {
            if is_conventional_header(ls) {
                lemma_forced_tail(ls, i as int, sopt, after_scope, bang);
                assert(false);
            }
        }
        return false;
    }
    if pos + 2 >= n {
        proof {
            if is_conventional_header(ls) {
                lemma_forced_tail(ls, i as int, sopt, after_scope, bang);
                assert(false);
            }
        }
        return false;
    }
    let c = line.get_char(pos + 2);
    if c == '\r' || c == '\n' {
        proof {
            if is_conventional_header(ls) {
                lemma_forced_tail(ls, i as int, sopt, after_scope, bang);
                assert(false);
            }
        }
        return false;
    }
    proof {
        assert(shape_idx(ls, i as int, sopt, bang));
        lemma_idx_to_shape(ls, i as int, sopt, bang);
    }
    true
}

/// Whatever decomposition a conforming line has, its `": "` and first
/// description character stand exactly where the parser's scans put them.
proof fn lemma_forced_tail(line: Seq<char>, i: int, sopt: Option<int>, after_scope: int, bang: bool)
    requires
        is_conventional_header(line),
        0 <= i <= line.len(),
        forall|k: int| 0 <= k < i ==> is_lower_alpha(#[trigger] line[k]),
        i == line.len() || !is_lower_alpha(line[i]),
        match sopt {
            Some(sl) => {
                &&& sl >= 0
                &&& after_scope == i + sl + 2
                &&& i < line.len()
                &&& line[i] == '('
                &&& (forall|k: int| i + 1 <= k < i + 1 + sl ==> is_scope_char(#[trigger] line[k]))
                &&& i + 1 + sl < line.len()
                &&& line[i + 1 + sl] == ')'
            },
            None => after_scope == i && (i == line.len() || line[i] != '('),
        },
        bang == (after_scope < line.len() && line[after_scope] == '!'),
    ensures
        ({
            let q = after_scope + (if bang {
                1int
            } else {
                0int
            });
            &&& q + 2 < line.len()
            &&& line[q] == ':'
            &&& line[q + 1] == ' '
            &&& line[q + 2] != '\r'
            &&& line[q + 2] != '\n'
        }),
{
    let (ty, scope, bang0, rest) = choose|
        ty: Seq<char>,
        scope: Option<Seq<char>>,
        bang0: bool,
        rest: Seq<char>,
    | header_shape(line, ty, scope, bang0, rest);
    lemma_shape_to_idx(line, ty, scope, bang0, rest);
    let so: Option<int> = match scope {
        Some(s) => Some(s.len() as int),
        None => None,
    };
    let t = ty.len() as int;
    lemma_idx_forced_type(line, t, so, bang0, i);
    let p = t + (match so {
        Some(sl) => sl + 2,
        None => 0,
    });
    match so {
        Some(sl0) => {
            match sopt {
                Some(sl) => {
                    // the parser's scope scan stopped at the ')' it saw, and
                    // that position also satisfies the scan's stopping rule,
                    // so the decomposition's closing parenthesis is the same
                    assert(!is_scope_char(line[i + 1 + sl]));
                    lemma_idx_forced_scope(line, i, sl0, bang0, i + 1 + sl);
                    assert(p == after_scope);
                },
                None => {
                    assert(line[t] == '(');
                    assert(false);
                },
            }
        },
        None => {
            match sopt {
                Some(sl) => {
                    if bang0 {
                        assert(line[t] == '!');
                    } else {
                        assert(line[t] == ':');
                    }
                    assert(false);
                },
                None => {
                    assert(p == after_scope);
                },
            }
        },
    }
    // the bang the parser saw is the decomposition's
    let q0 = p + (if bang0 {
        1int
    } else {
        0int
    });
    assert(q0 + 2 < line.len());
    if bang0 {
        assert(line[p] == '!');
    } else {
        assert(line[p] == ':');
    }
    assert(bang0 == bang);
}

/// Text free of line breaks.
pub open spec fn no_line_breaks(s: Seq<char>) -> bool {
    forall|i: int| 0 <= i < s.len() ==> #[trigger] s[i] != '\n' && s[i] != '\r'
}

proof fn lemma_concat_no_line_breaks(a: Seq<char>, b: Seq<char>)
    requires
        no_line_breaks(a),
        no_line_breaks(b),
    ensures
        no_line_breaks(a + b),
{
    assert forall|i: int| 0 <= i < (a + b).len() implies #[trigger] (a + b)[i] != '\n' && (a
        + b)[i] != '\r' by {
        if i < a.len() {
            assert((a + b)[i] == a[i]);
        } else {
            assert((a + b)[i] == b[i - a.len()]);
        }
    }
}

/// A header built from a lowercase type, a scope without parentheses or
/// line breaks, and a description without line breaks holds no line break
/// itself.
proof fn lemma_header_no_line_breaks(c: CommitView)
    requires
        all_lower_alpha(c.commit_type),
        (c.scope matches Some(s) ==> all_scope_chars(s)),
        no_line_breaks(c.description),
    ensures
        no_line_breaks(spec_header(c)),
{
    assert(no_line_breaks(c.commit_type)) by {
        assert forall|i: int| 0 <= i < c.commit_type.len() implies #[trigger] c.commit_type[i]
            != '\n' && c.commit_type[i] != '\r' by {
            assert(is_lower_alpha(c.commit_type[i]));
        }
    }
    assert(no_line_breaks(scope_part(c.scope))) by {
        match c.scope {
            Some(s) => {
                let sp = scope_part(c.scope);
                assert forall|i: int| 0 <= i < sp.len() implies #[trigger] sp[i] != '\n'
                    && sp[i] != '\r' by {
                    if i == 0 {
                        assert(sp[i] == '(');
                    } else if i == sp.len() - 1 {
                        assert(sp[i] == ')');
                    } else {
                        assert(sp[i] == s[i - 1]);
                        assert(is_scope_char(s[i - 1]));
                    }
                }
            },
            None => {},
        }
    }
    assert(no_line_breaks(bang_part(c.breaking_change)));
    assert(no_line_breaks(colon_space()));
    lemma_concat_no_line_breaks(c.commit_type, scope_part(c.scope));
    lemma_concat_no_line_breaks(
        c.commit_type + scope_part(c.scope),
        bang_part(c.breaking_change),
    );
    lemma_concat_no_line_breaks(
        c.commit_type + scope_part(c.scope) + bang_part(c.breaking_change),
        colon_space(),
    );
    lemma_concat_no_line_breaks(
        c.commit_type + scope_part(c.scope) + bang_part(c.breaking_change) + colon_space(),
        c.description,
    );
}

/// The round trip from model to text: a model whose type is a non-empty
/// lowercase word, whose scope (if set) holds no parentheses and no line
/// breaks, and whose description is non-empty and free of line breaks,
/// always formats to a message whose first line the validator accepts —
/// whatever its body, breaking flag and breaking description hold.
pub proof fn lemma_generate_validates(c: CommitView)
    requires
        c.commit_type.len() >= 1,
        all_lower_alpha(c.commit_type),
        (c.scope matches Some(s) ==> all_scope_chars(s)),
        c.description.len() >= 1,
        no_line_breaks(c.description),
    ensures
        is_conventional_header(spec_first_line(spec_generate(c))),
{
    let h = spec_header(c);
    let msg = spec_generate(c);
    let tail = spec_body_block(c) + spec_footer(c);
    lemma_header_no_line_breaks(c);
    assert(msg =~= h + tail);
    // the header itself decomposes as the grammar asks
    assert(c.description[0] != '\r' && c.description[0] != '\n');
    assert(header_shape(h, c.commit_type, c.scope, c.breaking_change, c.description));
    // the first line of the whole message is exactly the header
    assert(h[h.len() - 1] == c.description[c.description.len() - 1]) by {
        assert(h =~= (c.commit_type + scope_part(c.scope) + bang_part(c.breaking_change)
            + colon_space()) + c.description);
    }
    if tail.len() == 0 {
        assert(msg =~= h);
        assert(line_end_at(msg, msg.len() as int));
        let nc = choose|k: int| line_end_at(msg, k);
        lemma_line_end_unique(msg, msg.len() as int, nc);
        assert(spec_first_line(msg) =~= h);
    } else {
        assert(tail[0] == '\n') by {
            match c.body {
                Some(b) => {
                    assert(spec_body_block(c)[0] == '\n');
                },
                None => {
                    assert(spec_footer(c)[0] == '\n');
                },
            }
        }
        assert(msg[h.len() as int] == tail[0]);
        assert(line_end_at(msg, h.len() as int)) by {
            assert forall|i: int| 0 <= i < h.len() implies msg[i] != '\n' by {
                assert(msg[i] == h[i]);
            }
        }
        let nc = choose|k: int| line_end_at(msg, k);
        lemma_line_end_unique(msg, h.len() as int, nc);
        let raw = msg.subrange(0, h.len() as int);
        assert(raw =~= h);
        assert(raw.last() != '\r');
        assert(spec_first_line(msg) == raw);
    }
    assert(is_conventional_header(h));
}

/// Position `n` ends the first line of `s`: no line feed lies before it,
/// and a line feed (or the end of the text) stands at it.
pub open spec fn line_end_at(s: Seq<char>, n: int) -> bool {
    &&& 0 <= n <= s.len()
    &&& (forall|i: int| 0 <= i < n ==> s[i] != '\n')
    &&& (n == s.len() || s[n] == '\n')
}

/// The first line of a text: everything before the first line feed; when
/// that line feed exists and the line ends with a carriage return, the
/// carriage return is dropped too.
pub open spec fn spec_first_line(s: Seq<char>) -> Seq<char> {
    let n = choose|n: int| line_end_at(s, n);
    let raw = s.subrange(0, n);
    if n < s.len() && raw.len() > 0 && raw.last() == '\r' {
        raw.drop_last()
    } else {
        raw
    }
}

proof fn lemma_line_end_unique(s: Seq<char>, a: int, b: int)
    requires
        line_end_at(s, a),
        line_end_at(s, b),
    ensures
        a == b,
{
    if a < b {
        assert(s[a] != '\n');
        assert(false);
    }
    if b < a {
        assert(s[b] != '\n');
        assert(false);
    }
}

/// The diagnostic for a message that does not fit the grammar: the grammar
/// reminder, an example, and the offending first line.
pub open spec fn invalid_diag(line: Seq<char>) -> Seq<char> {
    "Invalid commit message format. Must follow:\n<type>[optional scope]: <description>\n\nExample: feat(parser): add new parsing algorithm\n\nYour message: "@
        + line
}

/// The diagnostic for an empty message.
pub open spec fn empty_diag() -> Seq<char> {
    "Commit message is empty"@
}

/// The empty-message diagnostic is distinct from every grammar diagnostic,
/// whatever the offending line was: an empty input is reported as empty,
/// never as a grammar mismatch.
pub proof fn lemma_diagnostics_distinct(line: Seq<char>)
    ensures
        empty_diag() != invalid_diag(line),
{
    reveal_strlit("Commit message is empty");
    reveal_strlit(
        "Invalid commit message format. Must follow:\n<type>[optional scope]: <description>\n\nExample: feat(parser): add new parsing algorithm\n\nYour message: ",
    );
    assert(empty_diag().len() < invalid_diag(line).len());
}

impl ConventionalCommit {
    /// Checks an arbitrary text against the header grammar. Only the first
    /// line is inspected; an empty text gets its own diagnostic.
    pub fn validate(message: &str) -> (r: Result<(), String>)
        ensures
            message@.len() == 0 ==> (r matches Err(e) && e@ == empty_diag()),
            message@.len() > 0 ==> (r is Ok <==> is_conventional_header(
                spec_first_line(message@),
            )),
            message@.len() > 0 ==> (r matches Err(e) ==> e@ == invalid_diag(
                spec_first_line(message@),
            )),
    {
        let ghost ms = message@;
        let n = message.unicode_len();
        if n == 0 {
            return Err(String::from_str("Commit message is empty"));
        }
        // the first line: scan to the first line feed
        let mut e: usize = 0;
        while e < n && message.get_char(e) != '\n'
            invariant
                0 <= e <= n,
                n == ms.len(),
                ms == message@,
                forall|k: int| 0 <= k < e ==> ms[k] != '\n',
            decreases n - e,
        {
            e += 1;
        }
        assert(line_end_at(ms, e as int));
        let end = if e < n && e > 0 && message.get_char(e - 1) == '\r' {
            e - 1
        } else {
            e
        };
        let first_line = message.substring_char(0, end);
        proof {
            let nc = choose|k: int| line_end_at(ms, k);
            lemma_line_end_unique(ms, e as int, nc);
            let raw = ms.subrange(0, e as int);
            if (e as int) < ms.len() && raw.len() > 0 && raw.last() == '\r' {
                assert(first_line@ =~= raw.drop_last());
            } else {
                assert(first_line@ =~= raw);
            }
            assert(first_line@ == spec_first_line(ms));
        }
        if header_matches(first_line) {
            Ok(())
        } else {
            let mut d = String::from_str(
                "Invalid commit message format. Must follow:\n<type>[optional scope]: <description>\n\nExample: feat(parser): add new parsing algorithm\n\nYour message: ",
            );
            d.append(first_line);
            Err(d)
        }
    }
}

/// A model without a scope formats to a header with no parenthesized scope
/// segment; a model with a scope formats to a header whose scope segment is
/// exactly the stored label in parentheses.
pub proof fn lemma_header_scope(c: CommitView)
    ensures
        c.scope is None ==> spec_header(c) == c.commit_type + bang_part(c.breaking_change)
            + colon_space() + c.description,
        forall|s: Seq<char>|
            c.scope == Some(s) ==> spec_header(c) == c.commit_type + (seq!['('] + s + seq![')'])
                + bang_part(c.breaking_change) + colon_space() + c.description,
{
    if c.scope is None {
        assert(spec_header(c) =~= c.commit_type + bang_part(c.breaking_change) + colon_space()
            + c.description);
    }
}

/// With the breaking flag unset, the formatted message is header and body
/// block alone — no breaking footer — whatever the stored breaking-change
/// description holds.
pub proof fn lemma_no_breaking_footer(c: CommitView)
    requires
        !c.breaking_change,
    ensures
        spec_generate(c) == spec_header(c) + spec_body_block(c),
        forall|d: Seq<char>|
            spec_generate(
                CommitView { breaking_change_description: d, ..c },
            ) == spec_generate(c),
{
    assert(spec_generate(c) =~= spec_header(c) + spec_body_block(c));
    assert forall|d: Seq<char>|
        spec_generate(CommitView { breaking_change_description: d, ..c }) == spec_generate(
            c,
        ) by {
        let cd = CommitView { breaking_change_description: d, ..c };
        assert(spec_header(cd) == spec_header(c));
        assert(spec_body_block(cd) == spec_body_block(c));
        assert(spec_footer(cd) =~= spec_footer(c));
    }
}

/// With the breaking flag set: an empty breaking-change description yields
/// no footer; a non-empty one yields a footer that follows a blank line and
/// opens with the literal label.
pub proof fn lemma_breaking_footer(c: CommitView)
    requires
        c.breaking_change,
    ensures
        c.breaking_change_description.len() == 0 ==> spec_generate(c) == spec_header(c)
            + spec_body_block(c),
        c.breaking_change_description.len() > 0 ==> spec_generate(c) == spec_header(c)
            + spec_body_block(c) + (seq!['\n', '\n'] + breaking_label()
            + c.breaking_change_description),
{
    if c.breaking_change_description.len() == 0 {
        assert(spec_generate(c) =~= spec_header(c) + spec_body_block(c));
    }
}

} // verus!
