use vstd::prelude::*;

use crate::text::{chars_of, is_white, lines_of, push_char, push_str, split_lines, string_of, trim, trim_white_end, trim_white_start, trimmed};

verus! {

/// The prefix of an MCP server table header.
pub open spec fn server_prefix() -> Seq<char> {
    "[mcp_servers."@
}

/// `s` with every leading copy of `p` removed.
pub open spec fn strip_prefixes(s: Seq<char>, p: Seq<char>) -> Seq<char>
    decreases s.len(),
{
    if p.len() > 0 && s.len() >= p.len() && s.subrange(0, p.len() as int) == p {
        strip_prefixes(s.subrange(p.len() as int, s.len() as int), p)
    } else {
        s
    }
}

/// `s` with every trailing `c` removed.
pub open spec fn strip_suffix_char(s: Seq<char>, c: char) -> Seq<char>
    decreases s.len(),
{
    if s.len() > 0 && s.last() == c {
        strip_suffix_char(s.drop_last(), c)
    } else {
        s
    }
}

/// The server name in a line of a TOML config, where the line is a header
/// `[mcp_servers.name]` or `[mcp_servers."name"]`.
pub open spec fn section_name(line: Seq<char>) -> Option<Seq<char>> {
    let t = trimmed(line);
    if !(t.len() >= server_prefix().len() && t.subrange(0, server_prefix().len() as int) == server_prefix() && t.last()
        == ']') {
        None
    } else {
        let inner = trimmed(strip_suffix_char(strip_prefixes(t, server_prefix()), ']'));
        if inner.len() >= 2 && inner[0] == '"' && inner.last() == '"' {
            Some(inner.subrange(1, inner.len() - 1))
        } else if inner.len() == 0 {
            None
        } else {
            Some(inner)
        }
    }
}

fn starts_at(cs: &Vec<char>, a: usize, p: &Vec<char>) -> (r: bool)
    requires
        a <= cs@.len(),
    ensures
        r == (a + p@.len() <= cs@.len() && cs@.subrange(a as int, a + p@.len()) == p@),
{
    let cl = cs.len();
    if p.len() > cl - a {
        return false;
    }
    let mut j: usize = 0;
    while j < p.len()
        invariant
            cl == cs@.len(),
            a + p@.len() <= cs@.len(),
            j <= p@.len(),
            forall|k: int| 0 <= k < j ==> cs@[a + k] == p@[k],
        decreases p@.len() - j,
    {
        if cs[a + j] != p[j] {
            assert(cs@.subrange(a as int, a + p@.len())[j as int] != p@[j as int]);
            return false;
        }
        j = j + 1;
    }
    assert(cs@.subrange(a as int, a + p@.len()) =~= p@);
    true
}

/// Reads the server name out of an MCP server table header line.
pub fn parse_mcp_server_section_header(line: &str) -> (r: Option<String>)
    ensures
        match section_name(line@) {
            Some(n) => r matches Some(s) && s@ == n,
            None => r is None,
        },
{
    let t = trim(line);
    let cs = chars_of(t.as_str());
    let prefix = chars_of("[mcp_servers.");
    proof {
        reveal_strlit("[mcp_servers.");
    }
    if !starts_at(&cs, 0, &prefix) || cs[cs.len() - 1] != ']' {
        return None;
    }
    let ghost full = cs@;
    let cl = cs.len();
    assert(cs@.subrange(0, cs@.len() as int) =~= cs@);
    let mut a: usize = 0;
    while starts_at(&cs, a, &prefix)
        invariant
            a <= cs@.len(),
            prefix@ == server_prefix(),
            server_prefix().len() == 13,
            cl == cs@.len(),
            full == cs@,
            strip_prefixes(full, server_prefix()) == strip_prefixes(cs@.subrange(a as int, cs@.len() as int), server_prefix()),
        decreases cs@.len() - a,
    {
        assert(cs@.subrange(a as int, cs@.len() as int).subrange(0, 13) =~= cs@.subrange(a as int, a + 13));
        assert(cs@.subrange(a as int, cs@.len() as int).subrange(13, cs@.len() - a) =~= cs@.subrange(a + 13, cs@.len() as int));
        a = a + 13;
    }
    assert(!(cs@.subrange(a as int, cs@.len() as int).len() >= 13 && cs@.subrange(a as int, cs@.len() as int).subrange(0, 13)
        == server_prefix())) by {
        if cs@.subrange(a as int, cs@.len() as int).len() >= 13 {
            assert(cs@.subrange(a as int, cs@.len() as int).subrange(0, 13) =~= cs@.subrange(a as int, a + 13));
        }
    }
    let mut b: usize = cs.len();
    while b > a && cs[b - 1] == ']'
        invariant
            a <= b <= cs@.len(),
            strip_suffix_char(strip_prefixes(full, server_prefix()), ']') == strip_suffix_char(cs@.subrange(a as int, b as int), ']'),
            full == cs@,
        decreases b - a,
    {
        assert(cs@.subrange(a as int, b as int).drop_last() =~= cs@.subrange(a as int, b - 1));
        b = b - 1;
    }
    let stripped = string_of(&cs, a, b);
    let inner = trim(stripped.as_str());
    let ics = chars_of(inner.as_str());
    let n = ics.len();
    if n >= 2 && ics[0] == '"' && ics[n - 1] == '"' {
        return Some(string_of(&ics, 1, n - 1));
    }
    if n == 0 {
        return None;
    }
    Some(inner)
}

/// `s` with a backslash put before every double quote.
pub open spec fn quote_escaped(s: Seq<char>) -> Seq<char>
    decreases s.len(),
{
    if s.len() == 0 {
        Seq::empty()
    } else if s.last() == '"' {
        quote_escaped(s.drop_last()) + seq!['\\', '"']
    } else {
        quote_escaped(s.drop_last()).push(s.last())
    }
}


proof fn lemma_quote_free(s: Seq<char>)
    requires
        forall|i: int| 0 <= i < s.len() ==> s[i] != '"',
    ensures
        quote_escaped(s) == s,
    decreases s.len(),
{
    if s.len() > 0 {
        lemma_quote_free(s.drop_last());
        assert(s.drop_last().push(s.last()) =~= s);
    }
}

/// A header written for a server reads back as that server's name: the
/// name exactly where it holds no double quote, its escaped form otherwise.
pub proof fn lemma_header_round_trip(name: Seq<char>)
    ensures
        section_name("[mcp_servers.\""@ + quote_escaped(name) + "\"]"@) == Some(quote_escaped(name)),
        (forall|i: int| 0 <= i < name.len() ==> name[i] != '"') ==> section_name(
            "[mcp_servers.\""@ + quote_escaped(name) + "\"]"@,
        ) == Some(name),
{
    reveal_strlit("[mcp_servers.\"");
    reveal_strlit("\"]");
    reveal_strlit("[mcp_servers.");
    let e = quote_escaped(name);
    let h = "[mcp_servers.\""@ + e + "\"]"@;
    assert(!is_white(h[0]));
    assert(trim_white_start(h) == h);
    assert(h.last() == ']');
    assert(trim_white_end(h) == h);
    assert(trimmed(h) == h);
    assert(h.subrange(0, 13) =~= server_prefix());
    let rest = h.subrange(13, h.len() as int);
    assert(rest =~= seq!['"'] + e + "\"]"@);
    assert(rest[0] == '"');
    if rest.len() >= 13 {
        assert(rest.subrange(0, 13)[0] != server_prefix()[0]);
    }
    assert(strip_prefixes(rest, server_prefix()) == rest);
    assert(strip_prefixes(h, server_prefix()) == rest);
    let r2 = seq!['"'] + e + seq!['"'];
    assert(rest.drop_last() =~= r2);
    assert(strip_suffix_char(r2, ']') == r2);
    assert(strip_suffix_char(rest, ']') == r2);
    assert(trim_white_start(r2) == r2);
    assert(trim_white_end(r2) == r2);
    assert(r2.subrange(1, r2.len() - 1) =~= e);
    if forall|i: int| 0 <= i < name.len() ==> name[i] != '"' {
        lemma_quote_free(name);
    }
}

/// The quoted table header for a server name, `[mcp_servers."name"]`.
pub fn normalize_mcp_server_header_name(name: &str) -> (r: String)
    ensures
        r@ == "[mcp_servers.\""@ + quote_escaped(name@) + "\"]"@,
{
    let cs = chars_of(name);
    let mut body = String::new();
    let mut i: usize = 0;
    while i < cs.len()
        invariant
            cs@ == name@,
            i <= cs@.len(),
            body@ == quote_escaped(cs@.subrange(0, i as int)),
        decreases cs@.len() - i,
    {
        if cs[i] == '"' {
            push_char(&mut body, '\\');
        }
        push_char(&mut body, cs[i]);
        assert(cs@.subrange(0, i + 1).drop_last() =~= cs@.subrange(0, i as int));
        i = i + 1;
        assert(body@ =~= quote_escaped(cs@.subrange(0, i as int)));
    }
    assert(cs@.subrange(0, cs@.len() as int) =~= cs@);
    let mut out = String::from_str("[mcp_servers.\"");
    push_str(&mut out, body.as_str());
    push_str(&mut out, "\"]");
    out
}

} // verus!

verus! {

/// One MCP server found in a config, with whether it is enabled.
#[derive(Clone, Debug, PartialEq, Eq)]
pub struct McpServerConfigEntry {
    pub name: String,
    pub enabled: bool,
}

impl McpServerConfigEntry {
    pub open spec fn view(&self) -> (Seq<char>, bool) {
        (self.name@, self.enabled)
    }
}

/// The first position from `i` on where `c` stands in `s`.
pub open spec fn first_pos(s: Seq<char>, c: char, i: int) -> Option<int>
    decreases s.len() - i,
{
    if i < 0 || i >= s.len() {
        None
    } else if s[i] == c {
        Some(i)
    } else {
        first_pos(s, c, i + 1)
    }
}

fn find_char(s: &Vec<char>, c: char) -> (r: Option<usize>)
    ensures
        match r {
            Some(i) => first_pos(s@, c, 0) == Some(i as int) && i < s@.len(),
            None => first_pos(s@, c, 0) is None,
        },
{
    let mut i: usize = 0;
    while i < s.len()
        invariant
            i <= s@.len(),
            first_pos(s@, c, 0) == first_pos(s@, c, i as int),
        decreases s@.len() - i,
    {
        if s[i] == c {
            return Some(i);
        }
        i = i + 1;
    }
    None
}

/// Whether a trimmed line is a TOML table header.
pub open spec fn is_table_line(t: Seq<char>) -> bool {
    t.len() > 0 && t[0] == '[' && t.last() == ']'
}

/// What reading a config has gathered so far.
pub struct ConfigScan {
    pub entries: Seq<(Seq<char>, bool)>,
    pub current: Option<Seq<char>>,
    pub enabled: Option<bool>,
}

pub open spec fn close_section(st: ConfigScan) -> Seq<(Seq<char>, bool)> {
    match st.current {
        Some(n) => st.entries.push((
            n,
            match st.enabled {
                Some(b) => b,
                None => true,
            },
        )),
        None => st.entries,
    }
}

/// The value of an `enabled = ...` line, with any comment cut off.
pub open spec fn enabled_value(v: Seq<char>) -> Seq<char> {
    trimmed(
        match first_pos(v, '#', 0) {
            Some(p) => v.subrange(0, p),
            None => v,
        },
    )
}

/// Reads one line of a config: a table header closes the server section
/// before it and may open a new one; inside a server section an
/// `enabled = true` or `enabled = false` line sets the flag.
pub open spec fn config_step(st: ConfigScan, line: Seq<char>) -> ConfigScan {
    let t = trimmed(line);
    if is_table_line(t) {
        ConfigScan { entries: close_section(st), current: section_name(t), enabled: None }
    } else if st.current is None || t.len() == 0 || t[0] == '#' {
        st
    } else {
        match first_pos(t, '=', 0) {
            None => st,
            Some(p) => if trimmed(t.subrange(0, p)) != "enabled"@ {
                st
            } else {
                let w = enabled_value(t.subrange(p + 1, t.len() as int));
                ConfigScan {
                    enabled: if w == "true"@ {
                        Some(true)
                    } else if w == "false"@ {
                        Some(false)
                    } else {
                        st.enabled
                    },
                    ..st
                }
            },
        }
    }
}

pub open spec fn config_scan(lines: Seq<Seq<char>>, n: int) -> ConfigScan
    decreases n,
{
    if n <= 0 || n > lines.len() {
        ConfigScan { entries: Seq::empty(), current: None, enabled: None }
    } else {
        config_step(config_scan(lines, n - 1), lines[n - 1])
    }
}

/// Whether `a` comes before `b` in code point order.
pub open spec fn lex_lt(a: Seq<char>, b: Seq<char>) -> bool
    decreases a.len(),
{
    if a.len() == 0 {
        b.len() > 0
    } else if b.len() == 0 {
        false
    } else if a[0] < b[0] {
        true
    } else if a[0] > b[0] {
        false
    } else {
        lex_lt(a.drop_first(), b.drop_first())
    }
}

/// Where `x` goes among `s[i..]`: before the first entry whose name sorts after it.
pub open spec fn insert_pos(s: Seq<(Seq<char>, bool)>, x: (Seq<char>, bool), i: int) -> int
    decreases s.len() - i,
{
    if i < 0 || i >= s.len() {
        s.len() as int
    } else if lex_lt(x.0, s[i].0) {
        i
    } else {
        insert_pos(s, x, i + 1)
    }
}

/// `s` sorted by name, entries with equal names kept in their order.
pub open spec fn sorted_by_name(s: Seq<(Seq<char>, bool)>) -> Seq<(Seq<char>, bool)>
    decreases s.len(),
{
    if s.len() == 0 {
        s
    } else {
        let r = sorted_by_name(s.drop_last());
        r.insert(insert_pos(r, s.last(), 0), s.last())
    }
}

/// The MCP servers that a config lists, sorted by name.
pub open spec fn configured_servers(contents: Seq<char>) -> Seq<(Seq<char>, bool)> {
    let ls = lines_of(contents);
    sorted_by_name(close_section(config_scan(ls, ls.len() as int)))
}

proof fn lemma_sorted_len(s: Seq<(Seq<char>, bool)>)
    ensures
        sorted_by_name(s).len() == s.len(),
    decreases s.len(),
{
    if s.len() > 0 {
        lemma_sorted_len(s.drop_last());
        lemma_insert_pos_bound(sorted_by_name(s.drop_last()), s.last(), 0);
    }
}

proof fn lemma_insert_pos_bound(s: Seq<(Seq<char>, bool)>, x: (Seq<char>, bool), i: int)
    requires
        0 <= i <= s.len(),
    ensures
        i <= insert_pos(s, x, i) <= s.len(),
    decreases s.len() - i,
{
    if i < s.len() && !lex_lt(x.0, s[i].0) {
        lemma_insert_pos_bound(s, x, i + 1);
    }
}

/// Whether `a` sorts before `b`, by code point.
pub fn str_less(a: &Vec<char>, b: &Vec<char>) -> (r: bool)
    ensures
        r == lex_lt(a@, b@),
{
    let mut i: usize = 0;
    assert(a@.subrange(0, a@.len() as int) =~= a@);
    assert(b@.subrange(0, b@.len() as int) =~= b@);
    while i < a.len() && i < b.len()
        invariant
            i <= a@.len(),
            i <= b@.len(),
            lex_lt(a@, b@) == lex_lt(a@.subrange(i as int, a@.len() as int), b@.subrange(i as int, b@.len() as int)),
        decreases a@.len() - i,
    {
        let x = a[i];
        let y = b[i];
        let ghost sa = a@.subrange(i as int, a@.len() as int);
        let ghost sb = b@.subrange(i as int, b@.len() as int);
        assert(sa[0] == a@[i as int] && sb[0] == b@[i as int]);
        if x < y {
            return true;
        }
        if x > y {
            return false;
        }
        assert(sa.drop_first() =~= a@.subrange(i + 1, a@.len() as int));
        assert(sb.drop_first() =~= b@.subrange(i + 1, b@.len() as int));
        i = i + 1;
    }
    let ghost sa = a@.subrange(i as int, a@.len() as int);
    let ghost sb = b@.subrange(i as int, b@.len() as int);
    i == a.len() && i < b.len()
}

/// Sorts entries by name as a stable sort does.
fn sort_by_name(items: Vec<McpServerConfigEntry>) -> (r: Vec<McpServerConfigEntry>)
    ensures
        r@.map_values(|e: McpServerConfigEntry| e.view()) == sorted_by_name(items@.map_values(|e: McpServerConfigEntry| e.view())),
{
    let ghost input = items@.map_values(|e: McpServerConfigEntry| e.view());
    let mut out: Vec<McpServerConfigEntry> = Vec::new();
    let mut k: usize = 0;
    while k < items.len()
        invariant
            k <= items@.len(),
            input == items@.map_values(|e: McpServerConfigEntry| e.view()),
            out@.map_values(|e: McpServerConfigEntry| e.view()) == sorted_by_name(input.subrange(0, k as int)),
        decreases items@.len() - k,
    {
        let x = McpServerConfigEntry { name: items[k].name.clone(), enabled: items[k].enabled };
        assert(x.view() == input[k as int]);
        let ghost before = out@.map_values(|e: McpServerConfigEntry| e.view());
        let xname = crate::text::chars_of(x.name.as_str());
        let mut pos: usize = 0;
        let mut done = false;
        while pos < out.len() && !done
            invariant
                pos <= out@.len(),
                before == out@.map_values(|e: McpServerConfigEntry| e.view()),
                xname@ == x.name@,
                insert_pos(before, x.view(), 0) == (if done {
                    pos as int
                } else {
                    insert_pos(before, x.view(), pos as int)
                }),
            decreases out@.len() - pos + (if done { 0int } else { 1int }),
        {
            let other = crate::text::chars_of(out[pos].name.as_str());
            assert(before[pos as int].0 == out@[pos as int].name@);
            if str_less(&xname, &other) {
                done = true;
            } else {
                pos = pos + 1;
            }
        }
        proof {
            lemma_insert_pos_bound(before, x.view(), 0);
            assert(input.subrange(0, k + 1).drop_last() =~= input.subrange(0, k as int));
        }
        out.insert(pos, x);
        assert(out@.map_values(|e: McpServerConfigEntry| e.view()) =~= before.insert(pos as int, input[k as int]));
        k = k + 1;
    }
    assert(input.subrange(0, input.len() as int) =~= input);
    out
}

} // verus!

verus! {

/// Lists the MCP servers that a TOML config declares, each with its
/// `enabled` flag (true where the section does not set it), sorted by name.
pub fn list_configured_mcp_servers_from_toml(contents: &str) -> (r: Vec<McpServerConfigEntry>)
    ensures
        r@.map_values(|e: McpServerConfigEntry| e.view()) == configured_servers(contents@),
{
    let lines = split_lines(contents);
    let ghost ls = lines_of(contents@);
    let mut entries: Vec<McpServerConfigEntry> = Vec::new();
    let mut current: Option<String> = None;
    let mut enabled: Option<bool> = None;
    assert(entries@.map_values(|e: McpServerConfigEntry| e.view()) =~= Seq::<(Seq<char>, bool)>::empty());
    let mut k: usize = 0;
    while k < lines.len()
        invariant
            k <= lines@.len(),
            ls == lines_of(contents@),
            line_views(lines@) == ls,
            config_scan(ls, k as int) == (ConfigScan {
                entries: entries@.map_values(|e: McpServerConfigEntry| e.view()),
                current: crate::daemon::opt_view(current),
                enabled,
            }),
        decreases lines@.len() - k,
    {
        assert(ls[k as int] == lines@[k as int]@);
        let ghost st = config_scan(ls, k as int);
        let t = trim(lines[k].as_str());
        let tc = chars_of(t.as_str());
        let n = tc.len();
        if n > 0 && tc[0] == '[' && tc[n - 1] == ']' {
            match current {
                Some(name) => {
                    let flag = match enabled {
                        Some(b) => b,
                        None => true,
                    };
                    entries.push(McpServerConfigEntry { name, enabled: flag });
                    assert(entries@.map_values(|e: McpServerConfigEntry| e.view()) =~= close_section(st));
                },
                None => {},
            }
            enabled = None;
            current = parse_mcp_server_section_header(t.as_str());
        } else if current.is_none() || n == 0 || tc[0] == '#' {
        } else {
            match find_char(&tc, '=') {
                None => {},
                Some(p) => {
                    let key = trim(string_of(&tc, 0, p).as_str());
                    if crate::text::str_eq(key.as_str(), "enabled") {
                        let rest = string_of(&tc, p + 1, n);
                        let rc = chars_of(rest.as_str());
                        let cut = match find_char(&rc, '#') {
                            Some(h) => string_of(&rc, 0, h),
                            None => string_of(&rc, 0, rc.len()),
                        };
                        assert(rc@.subrange(0, rc@.len() as int) =~= rc@);
                        assert(tc@ == t@);
                        assert(rc@ == t@.subrange(p + 1, t@.len() as int));
                        assert(cut@ == (match first_pos(rc@, '#', 0) {
                            Some(h) => rc@.subrange(0, h),
                            None => rc@,
                        }));
                        let w = trim(cut.as_str());
                        if crate::text::str_eq(w.as_str(), "true") {
                            enabled = Some(true);
                        } else if crate::text::str_eq(w.as_str(), "false") {
                            enabled = Some(false);
                        }
                    }
                },
            }
        }
        k = k + 1;
    }
    match current {
        Some(name) => {
            let flag = match enabled {
                Some(b) => b,
                None => true,
            };
            entries.push(McpServerConfigEntry { name, enabled: flag });
        },
        None => {},
    }
    assert(entries@.map_values(|e: McpServerConfigEntry| e.view()) =~= close_section(config_scan(ls, ls.len() as int)));
    sort_by_name(entries)
}

} // verus!

verus! {

/// The texts of a list of lines.
pub open spec fn line_views(v: Seq<String>) -> Seq<Seq<char>> {
    v.map_values(|l: String| l@)
}

/// The first line from `i` on whose trimmed text is `header`.
pub open spec fn header_index(ls: Seq<Seq<char>>, header: Seq<char>, i: int) -> Option<int>
    decreases ls.len() - i,
{
    if i < 0 || i >= ls.len() {
        None
    } else if trimmed(ls[i]) == header {
        Some(i)
    } else {
        header_index(ls, header, i + 1)
    }
}

/// The first line from `i` on that is a table header, or the number of lines.
pub open spec fn table_index(ls: Seq<Seq<char>>, i: int) -> int
    decreases ls.len() - i,
{
    if i < 0 || i >= ls.len() {
        ls.len() as int
    } else if is_table_line(trimmed(ls[i])) {
        i
    } else {
        table_index(ls, i + 1)
    }
}

/// Whether a trimmed line sets the `enabled` key.
pub open spec fn is_enabled_line(t: Seq<char>) -> bool {
    t.len() >= 7 && t.subrange(0, 7) == "enabled"@ && match first_pos(t, '=', 0) {
        Some(p) => trimmed(t.subrange(0, p)) == "enabled"@,
        None => false,
    }
}

/// The first line in `[i, end)` that sets the `enabled` key.
pub open spec fn enabled_index(ls: Seq<Seq<char>>, i: int, end: int) -> Option<int>
    decreases end - i,
{
    if i < 0 || i >= end || i >= ls.len() {
        None
    } else if is_enabled_line(trimmed(ls[i])) {
        Some(i)
    } else {
        enabled_index(ls, i + 1, end)
    }
}

/// Lines joined with line feeds, with a final line feed.
pub open spec fn terminated(ls: Seq<Seq<char>>) -> Seq<char>
    decreases ls.len(),
{
    if ls.len() == 0 {
        Seq::empty()
    } else {
        terminated(ls.drop_last()) + ls.last() + seq!['\n']
    }
}

/// What `lines.join("\n") + "\n"` gives.
pub open spec fn joined(ls: Seq<Seq<char>>) -> Seq<char> {
    if ls.len() == 0 { seq!['\n'] } else { terminated(ls) }
}

pub open spec fn enabled_line(enabled: bool) -> Seq<char> {
    "enabled = "@ + (if enabled { "true"@ } else { "false"@ })
}

/// The config with the `enabled` flag of server `name` set: an existing
/// `enabled` line of its section is replaced, else one is put right after
/// the section header; a missing section is appended, after a blank line
/// where the config does not end in one.
pub open spec fn upserted(contents: Seq<char>, name: Seq<char>, enabled: bool) -> Seq<char> {
    let ls = lines_of(contents);
    let header = "[mcp_servers.\""@ + quote_escaped(name) + "\"]"@;
    let en = enabled_line(enabled);
    match header_index(ls, header, 0) {
        Some(s) => {
            let end = table_index(ls, s + 1);
            match enabled_index(ls, s + 1, end) {
                Some(e) => joined(ls.update(e, en)),
                None => joined(ls.insert(s + 1, en)),
            }
        },
        None => {
            let base = if ls.len() > 0 && trimmed(ls.last()).len() != 0 { ls.push(Seq::empty()) } else { ls };
            joined(base.push(header).push(en))
        },
    }
}

fn join_lines(lines: &Vec<String>) -> (r: String)
    ensures
        r@ == joined(line_views(lines@)),
{
    let ghost ls = line_views(lines@);
    if lines.len() == 0 {
        let r = String::from_str("\n");
        proof {
            reveal_strlit("\n");
        }
        assert(r@ =~= seq!['\n']);
        return r;
    }
    let mut out = String::new();
    let mut i: usize = 0;
    while i < lines.len()
        invariant
            i <= lines@.len(),
            ls == line_views(lines@),
            out@ == terminated(ls.subrange(0, i as int)),
        decreases lines@.len() - i,
    {
        push_str(&mut out, lines[i].as_str());
        push_char(&mut out, '\n');
        assert(ls.subrange(0, i + 1).drop_last() =~= ls.subrange(0, i as int));
        i = i + 1;
    }
    assert(ls.subrange(0, ls.len() as int) =~= ls);
    out
}

fn trimmed_chars(line: &String) -> (r: Vec<char>)
    ensures
        r@ == trimmed(line@),
{
    let t = trim(line.as_str());
    chars_of(t.as_str())
}

fn enabled_line_text(t: &Vec<char>) -> (r: bool)
    ensures
        r == is_enabled_line(t@),
{
    proof {
        reveal_strlit("enabled");
    }
    let word = chars_of("enabled");
    if t.len() < 7 || !starts_at(t, 0, &word) {
        return false;
    }
    match find_char(t, '=') {
        Some(p) => {
            let key = trim(string_of(t, 0, p).as_str());
            crate::text::str_eq(key.as_str(), "enabled")
        },
        None => false,
    }
}

/// Sets the `enabled` flag of the MCP server `server_name` in a TOML config.
pub fn upsert_mcp_server_enabled(contents: &str, server_name: &str, enabled: bool) -> (r: String)
    ensures
        r@ == upserted(contents@, server_name@, enabled),
{
    let header = normalize_mcp_server_header_name(server_name);
    let mut en = String::from_str("enabled = ");
    if enabled {
        push_str(&mut en, "true");
    } else {
        push_str(&mut en, "false");
    }
    assert(en@ == enabled_line(enabled));
    let mut lines = split_lines(contents);
    let ghost ls = lines_of(contents@);
    let mut s: usize = 0;
    let mut found = false;
    while s < lines.len() && !found
        invariant
            s <= lines@.len(),
            line_views(lines@) == ls,
                ls == lines_of(contents@),
            en@ == enabled_line(enabled),
            header@ == "[mcp_servers.\""@ + quote_escaped(server_name@) + "\"]"@,
            header_index(ls, header@, 0) == (if found { Some(s as int) } else { header_index(ls, header@, s as int) }),
            found ==> s < lines@.len(),
        decreases lines@.len() - s + (if found { 0int } else { 1int }),
    {
        assert(ls[s as int] == lines@[s as int]@);
        let t = trim(lines[s].as_str());
        if t == header {
            found = true;
        } else {
            s = s + 1;
        }
    }
    if found {
        let mut end: usize = s + 1;
        let mut at_table = false;
        while end < lines.len() && !at_table
            invariant
                s < end <= lines@.len(),
                line_views(lines@) == ls,
                ls == lines_of(contents@),
                en@ == enabled_line(enabled),
                header_index(ls, header@, 0) == Some(s as int),
                header@ == "[mcp_servers.\""@ + quote_escaped(server_name@) + "\"]"@,
                table_index(ls, s + 1) == (if at_table { end as int } else { table_index(ls, end as int) }),
            decreases lines@.len() - end + (if at_table { 0int } else { 1int }),
        {
            assert(ls[end as int] == lines@[end as int]@);
            let t = trimmed_chars(&lines[end]);
            if t.len() > 0 && t[0] == '[' && t[t.len() - 1] == ']' {
                at_table = true;
            } else {
                end = end + 1;
            }
        }
        assert(table_index(ls, s + 1) == end as int);
        let mut e: usize = s + 1;
        while e < end
            invariant
                s < e <= end <= lines@.len(),
                line_views(lines@) == ls,
                ls == lines_of(contents@),
                en@ == enabled_line(enabled),
                header_index(ls, header@, 0) == Some(s as int),
                header@ == "[mcp_servers.\""@ + quote_escaped(server_name@) + "\"]"@,
                table_index(ls, s + 1) == end as int,
                enabled_index(ls, s + 1, end as int) == enabled_index(ls, e as int, end as int),
            decreases end - e,
        {
            assert(ls[e as int] == lines@[e as int]@);
            let t = trimmed_chars(&lines[e]);
            if enabled_line_text(&t) {
                let ghost before = lines@;
                let ghost ev = en@;
                lines.remove(e);
                lines.insert(e, en);
                assert(lines@ =~= before.update(e as int, lines@[e as int]));
                assert(lines@[e as int]@ == ev);
                assert forall|j: int| 0 <= j < ls.len() implies #[trigger] line_views(lines@)[j] == ls.update(
                    e as int,
                    enabled_line(enabled),
                )[j] by {
                    if j != e {
                        assert(lines@[j] == before[j]);
                        assert(line_views(before)[j] == before[j]@);
                    } else {
                        assert(line_views(lines@)[j] == lines@[j]@);
                        assert(ev == enabled_line(enabled));
                    }
                }
                assert(line_views(lines@) =~= ls.update(e as int, enabled_line(enabled)));
                return join_lines(&lines);
            }
            e = e + 1;
        }
        lines.insert(s + 1, en);
        assert(line_views(lines@) =~= ls.insert(s + 1, enabled_line(enabled)));
        return join_lines(&lines);
    }
    let n = lines.len();
    if n > 0 {
        let last = trim(lines[n - 1].as_str());
        assert(ls.last() == lines@[n - 1]@);
        if last.unicode_len() != 0 {
            lines.push(String::new());
        }
    }
    let ghost base = line_views(lines@);
    assert(header_index(ls, header@, 0) is None);
    assert(base == (if ls.len() > 0 && trimmed(ls.last()).len() != 0 { ls.push(Seq::<char>::empty()) } else { ls }));
    lines.push(header);
    lines.push(en);
    assert(line_views(lines@) =~= base.push(("[mcp_servers.\""@ + quote_escaped(server_name@) + "\"]"@)).push(enabled_line(enabled)));
    join_lines(&lines)
}

} // verus!
