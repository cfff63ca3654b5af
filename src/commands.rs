use vstd::prelude::*;

verus! {

#[verifier::external_type_specification]
#[verifier::external_body]
pub struct ExRegex(regex::Regex);

#[verifier::external_type_specification]
#[verifier::external_body]
pub struct ExRegexError(regex::Error);

/// Whether `Regex::new` accepts a pattern (with its default limits).
pub uninterp spec fn compiles(pattern: Seq<char>) -> bool;

/// Whether a compiled pattern matches somewhere in a text.
pub uninterp spec fn pattern_matches(pattern: Seq<char>, text: Seq<char>) -> bool;

/// A text without the first match of a pattern (the text itself when there
/// is none).
pub uninterp spec fn without_first_match(pattern: Seq<char>, text: Seq<char>) -> Seq<char>;

/// Relies on `Regex::new`: whether it compiles depends on the pattern alone;
/// it fails on one that is not valid rather than panicking.
pub assume_specification[ regex::Regex::new ](re: &str) -> (r: Result<regex::Regex, regex::Error>)
    ensures
        r is Ok <==> compiles(re@),
;

/// What a command does.
#[derive(PartialEq, Eq, Structural, Clone, Copy, Debug)]
pub enum CommandAction {
    Quit,
    Write,
    WriteQuit,
    SearchForward,
    SearchBackward,
}

/// A registered command: the pattern that selects it (as text and compiled
/// from that text), its name, a description, and its action.
pub struct Command {
    regex: regex::Regex,
    pattern: String,
    name: String,
    description: String,
    action: CommandAction,
}

/// Relies on `Regex::is_match`: the command's regex was compiled from its
/// pattern text, and whether it matches depends on that text and `text` alone.
#[verifier::external_body]
fn command_matches(c: &Command, text: &str) -> (r: bool)
    ensures
        r == pattern_matches(c.pattern_text(), text@),
{
    c.regex.is_match(text)
}

/// Relies on `Regex::replace` with an empty replacement: the text without the
/// first match of the command's pattern, which depends on the pattern text
/// and `text` alone.
#[verifier::external_body]
fn remove_first_match(c: &Command, text: &str) -> (r: String)
    ensures
        r@ == without_first_match(c.pattern_text(), text@),
{
    c.regex.replace(text, "").into_owned()
}

impl Command {
    pub closed spec fn pattern_text(&self) -> Seq<char> {
        self.pattern@
    }

    pub closed spec fn name_text(&self) -> Seq<char> {
        self.name@
    }

    pub closed spec fn description_text(&self) -> Seq<char> {
        self.description@
    }

    pub closed spec fn action_spec(&self) -> CommandAction {
        self.action
    }

    pub fn name(&self) -> (r: &str)
        ensures
            r@ == self.name_text(),
    {
        self.name.as_str()
    }

    pub fn description(&self) -> (r: &str)
        ensures
            r@ == self.description_text(),
    {
        self.description.as_str()
    }

    /// The pattern text the command's regex was compiled from.
    pub fn pattern(&self) -> (r: &str)
        ensures
            r@ == self.pattern_text(),
    {
        self.pattern.as_str()
    }

    pub fn action(&self) -> (r: CommandAction)
        ensures
            r == self.action_spec(),
    {
        self.action
    }
}

/// The command registry, tried in order of registration.
pub struct Commands {
    pub commands: Vec<Command>,
}

/// A pattern of a stock command did not compile.
pub struct PatternError {
    pub name: String,
}

/// A command line resolved to a command: its action, the words of the line
/// without the command's token, and whether the line asks to force it.
pub struct Invocation {
    pub action: CommandAction,
    pub params: Vec<String>,
    pub forced: bool,
}

/// Whether the command patterns of `cs` match `text`, in order.
pub open spec fn matched_by(cs: Seq<Command>, text: Seq<char>) -> Seq<bool> {
    Seq::new(cs.len(), |i: int| pattern_matches(cs[i].pattern_text(), text))
}

/// The line ends with the force marker `!`.
pub open spec fn has_force_marker_spec(line: Seq<char>) -> bool {
    line.len() > 0 && line.last() == '!'
}

/// The line without a trailing force marker.
pub open spec fn without_marker(line: Seq<char>) -> Seq<char> {
    if has_force_marker_spec(line) {
        line.drop_last()
    } else {
        line
    }
}

/// The stock patterns, in order of registration.
pub open spec fn stock_patterns() -> Seq<Seq<char>> {
    seq!["\\b(q)\\b"@, "\\b(w)\\b"@, "\\b(wq)\\b"@, "/"@, "\\?"@]
}

/// The stock commands, in order of registration.
pub open spec fn is_stock(c: &Commands) -> bool {
    let v = c.commands@;
    &&& v.len() == 5
    &&& forall|i: int| 0 <= i < 5 ==> #[trigger] v[i].pattern_text() == stock_patterns()[i]
    &&& v[0].name_text() == "q"@ && v[0].action_spec() == CommandAction::Quit
    &&& v[1].name_text() == "w"@ && v[1].action_spec() == CommandAction::Write
    &&& v[2].name_text() == "wq"@ && v[2].action_spec() == CommandAction::WriteQuit
    &&& v[3].name_text() == "/"@ && v[3].action_spec() == CommandAction::SearchForward
    &&& v[4].name_text() == "?"@ && v[4].action_spec() == CommandAction::SearchBackward
}

fn make_command(pattern: &str, name: &str, description: &str, action: CommandAction) -> (r:
    Result<Command, PatternError>)
    ensures
        r is Ok <==> compiles(pattern@),
        r matches Ok(c) ==> c.pattern_text() == pattern@ && c.name_text() == name@
            && c.description_text() == description@ && c.action_spec() == action,
        r matches Err(e) ==> e.name@ == name@,
{
    match regex::Regex::new(pattern) {
        Ok(regex) => Ok(
            Command {
                regex,
                pattern: pattern.to_owned(),
                name: name.to_owned(),
                description: description.to_owned(),
                action,
            },
        ),
        Err(_) => Err(PatternError { name: name.to_owned() }),
    }
}

impl Commands {
    /// The stock commands: `q` quits, `w` saves, `wq` saves and quits (the
    /// three as whole words), `/` and `?` search forward and backward
    /// (anywhere in the line). Fails only when a pattern does not compile.
    pub fn default() -> (r: Result<Commands, PatternError>)
        ensures
            r is Ok <==> (compiles("\\b(q)\\b"@) && compiles("\\b(w)\\b"@) && compiles(
                "\\b(wq)\\b"@,
            ) && compiles("/"@) && compiles("\\?"@)),
            r matches Ok(c) ==> is_stock(&c),
            r matches Err(e) ==> e.name@ == "q"@ || e.name@ == "w"@ || e.name@ == "wq"@
                || e.name@ == "/"@ || e.name@ == "?"@,
    {
        let quit = make_command("\\b(q)\\b", "q", "Quits Editor", CommandAction::Quit)?;
        let write = make_command(
            "\\b(w)\\b",
            "w",
            "Saves current document",
            CommandAction::Write,
        )?;
        let write_quit = make_command(
            "\\b(wq)\\b",
            "wq",
            "Saves current document and exits",
            CommandAction::WriteQuit,
        )?;
        let forward = make_command(
            "/",
            "/",
            "Searches document (top -> bottom)",
            CommandAction::SearchForward,
        )?;
        let backward = make_command(
            "\\?",
            "?",
            "Searches document (bottom -> top)",
            CommandAction::SearchBackward,
        )?;
        let mut commands: Vec<Command> = Vec::new();
        commands.push(quit);
        commands.push(write);
        commands.push(write_quit);
        commands.push(forward);
        commands.push(backward);
        let r = Commands { commands };
        assert(forall|i: int| 0 <= i < 5 ==> #[trigger] r.commands@[i].pattern_text() == stock_patterns()[i]) by {
            assert(r.commands@[0].pattern_text() == stock_patterns()[0]);
            assert(r.commands@[1].pattern_text() == stock_patterns()[1]);
            assert(r.commands@[2].pattern_text() == stock_patterns()[2]);
            assert(r.commands@[3].pattern_text() == stock_patterns()[3]);
            assert(r.commands@[4].pattern_text() == stock_patterns()[4]);
        }
        Ok(r)
    }

    /// Of the commands whose pattern matches `command_name`, the one
    /// registered last.
    pub fn get_command(&self, command_name: &str) -> (r: Option<&Command>)
        ensures
            r is None <==> last_true(matched_by(self.commands@, command_name@)) is None,
            r matches Some(c) ==> (last_true(matched_by(self.commands@, command_name@)) matches Some(
                k,
            ) && 0 <= k < self.commands@.len() && *c == self.commands@[k]),
    {
        let ghost m = matched_by(self.commands@, command_name@);
        let mut matched: Vec<bool> = Vec::new();
        let mut i: usize = 0;
        while i < self.commands.len()
            invariant
                i <= self.commands@.len(),
                m == matched_by(self.commands@, command_name@),
                matched@ == m.take(i as int),
            decreases self.commands@.len() - i,
        {
            let b = command_matches(&self.commands[i], command_name);
            matched.push(b);
            assert(matched@ =~= m.take(i + 1));
            i += 1;
        }
        assert(matched@ =~= m);
        proof {
            lemma_last_true_in_range(m);
        }
        match last_match(&matched) {
            Some(k) => Some(&self.commands[k]),
            None => None,
        }
    }

    /// The command a line names, after taking off a trailing force marker
    /// `!`: its action, the words of the line without the command's first
    /// match, and whether the marker was there.
    pub fn resolve(&self, command_line: &str) -> (r: Option<Invocation>)
        ensures
            ({
                let line = without_marker(command_line@);
                let m = matched_by(self.commands@, line);
                &&& r is None <==> last_true(m) is None
                &&& r matches Some(inv) ==> (last_true(m) matches Some(k) && 0 <= k
                    < self.commands@.len() && inv.action == self.commands@[k].action_spec()
                    && inv.params@.map_values(|w: String| w@) == words(
                    without_first_match(self.commands@[k].pattern_text(), line),
                ) && inv.forced == has_force_marker_spec(command_line@))
            }),
    {
        let n = command_line.unicode_len();
        let forced = n > 0 && command_line.get_char(n - 1) == '!';
        let line = if forced {
            command_line.substring_char(0, n - 1)
        } else {
            command_line
        };
        assert(line@ == without_marker(command_line@));
        match self.get_command(line) {
            None => None,
            Some(c) => {
                let rest = remove_first_match(c, line);
                Some(Invocation { action: c.action, params: split_words(rest.as_str()), forced })
            },
        }
    }
}

proof fn lemma_last_true_in_range(m: Seq<bool>)
    ensures
        last_true(m) matches Some(k) ==> 0 <= k < m.len(),
    decreases m.len(),
{
    if m.len() > 0 {
        lemma_last_true_in_range(m.drop_last());
    }
}

/// The index of the last `true` in `m`.
pub open spec fn last_true(m: Seq<bool>) -> Option<int>
    decreases m.len(),
{
    if m.len() == 0 {
        None
    } else if m.last() {
        Some(m.len() - 1)
    } else {
        last_true(m.drop_last())
    }
}

/// The index of the last `true` in `matched`: of the commands whose pattern
/// matched, the one registered last.
pub fn last_match(matched: &Vec<bool>) -> (r: Option<usize>)
    ensures
        r matches Some(i) ==> last_true(matched@) == Some(i as int),
        r is None ==> last_true(matched@) is None,
{
    let mut i: usize = matched.len();
    assert(matched@.take(i as int) == matched@);
    while i > 0
        invariant
            i <= matched@.len(),
            last_true(matched@) == last_true(matched@.take(i as int)),
        decreases i,
    {
        let ghost t = matched@.take(i as int);
        assert(t.drop_last() == matched@.take(i - 1));
        if matched[i - 1] {
            return Some(i - 1);
        }
        i -= 1;
    }
    assert(matched@.take(0) == Seq::<bool>::empty());
    None
}

/// Of two matching commands, the one registered later is chosen: the result
/// is never the earlier one, and is at or after the later one.
pub proof fn lemma_later_match_wins(m: Seq<bool>, i: int, j: int)
    requires
        0 <= i < j < m.len(),
        m[i],
        m[j],
    ensures
        last_true(m) matches Some(k) && j <= k < m.len() && m[k],
    decreases m.len(),
{
    if !m.last() {
        assert(m.drop_last()[i] == m[i]);
        assert(m.drop_last()[j] == m[j]);
        lemma_later_match_wins(m.drop_last(), i, j);
    }
}

/// The pieces of `s` between spaces.
pub open spec fn words(s: Seq<char>) -> Seq<Seq<char>>
    decreases s.len(),
{
    if s.len() == 0 {
        seq![Seq::empty()]
    } else {
        let p = words(s.drop_last());
        if s.last() == ' ' {
            p.push(Seq::empty())
        } else {
            p.update(p.len() - 1, p.last().push(s.last()))
        }
    }
}

/// The pieces of `s` between spaces, as strings.
pub fn split_words(s: &str) -> (r: Vec<String>)
    ensures
        r@.map_values(|w: String| w@) == words(s@),
{
    let n = s.unicode_len();
    let mut done: Vec<String> = Vec::new();
    let mut current = String::new();
    let mut i: usize = 0;
    while i < n
        invariant
            n == s@.len(),
            i <= n,
            done@.map_values(|w: String| w@).push(current@) == words(s@.take(i as int)),
        decreases n - i,
    {
        let c = s.get_char(i);
        let ghost t = s@.take(i + 1);
        assert(t.drop_last() == s@.take(i as int));
        if c == ' ' {
            let w = current;
            done.push(w);
            current = String::new();
            assert(done@.map_values(|w: String| w@).push(current@) =~= words(t));
        } else {
            crate::text::push_char(&mut current, c);
            assert(done@.map_values(|w: String| w@).push(current@) =~= words(t));
        }
        i += 1;
    }
    assert(s@.take(n as int) == s@);
    done.push(current);
    assert(done@.map_values(|w: String| w@) =~= words(s@));
    done
}

/// The words joined with single spaces.
pub open spec fn joined(ws: Seq<Seq<char>>) -> Seq<char>
    decreases ws.len(),
{
    if ws.len() == 0 {
        Seq::empty()
    } else if ws.len() == 1 {
        ws[0]
    } else {
        joined(ws.drop_last()).push(' ') + ws.last()
    }
}

/// The words joined with single spaces.
pub fn join_words(ws: &Vec<String>) -> (r: String)
    ensures
        r@ == joined(ws@.map_values(|w: String| w@)),
{
    let ghost v = ws@.map_values(|w: String| w@);
    let mut r = String::new();
    let mut i: usize = 0;
    while i < ws.len()
        invariant
            i <= ws@.len(),
            v == ws@.map_values(|w: String| w@),
            r@ == joined(v.take(i as int)),
        decreases ws@.len() - i,
    {
        if i > 0 {
            crate::text::push_char(&mut r, ' ');
        }
        r.append(ws[i].as_str());
        proof {
            let t = v.take(i + 1);
            assert(t.drop_last() == v.take(i as int));
            if i == 0 {
                assert(v.take(0) == Seq::<Seq<char>>::empty());
                assert(r@ == t[0]);
            }
        }
        i += 1;
    }
    assert(v.take(ws@.len() as int) == v);
    r
}

/// Splitting at spaces and joining with spaces gives the text back.
pub proof fn lemma_join_words(s: Seq<char>)
    ensures
        joined(words(s)) == s,
    decreases s.len(),
{
    if s.len() > 0 {
        let d = s.drop_last();
        lemma_join_words(d);
        let p = words(d);
        lemma_words_len(d);
        if s.last() == ' ' {
            assert(p.push(Seq::empty()).drop_last() == p);
            assert(s == d.push(' ') + Seq::<char>::empty());
        } else {
            let q = p.update(p.len() - 1, p.last().push(s.last()));
            if p.len() == 1 {
                assert(joined(q) == q[0]);
                assert(s == d.push(s.last()));
            } else {
                assert(q.drop_last() == p.drop_last());
                assert(joined(p) == joined(p.drop_last()).push(' ') + p.last());
                assert(s == d.push(s.last()));
                assert(joined(q) == joined(p.drop_last()).push(' ') + p.last().push(s.last()));
            }
        }
    }
}

proof fn lemma_words_len(s: Seq<char>)
    ensures
        words(s).len() >= 1,
    decreases s.len(),
{
    if s.len() > 0 {
        lemma_words_len(s.drop_last());
    }
}

} // verus!
