//! The command grammar on inbound text and callback payloads.
//!
//! A command is `/<name>` at the start of a message, optionally tagged
//! `@<something>bot`, optionally followed by whitespace and a free-text
//! argument. Callback data is namespaced `"<plugin-name>.<key>"`.

use vstd::prelude::*;

use crate::types::CallbackQuery;
use crate::types::IncomingMessage;

verus! {

/// Characters a command name is made of.
pub open spec fn is_word_char(c: char) -> bool {
    ('a' as u32 <= c as u32 && c as u32 <= 'z' as u32) || ('A' as u32 <= c as u32 && c as u32
        <= 'Z' as u32) || ('0' as u32 <= c as u32 && c as u32 <= '9' as u32) || c == '_'
}

/// The whitespace characters that end a command head.
pub open spec fn is_space_char(c: char) -> bool {
    c == ' ' || c == '\t' || c == '\n' || c == '\r' || c == '\u{b}' || c == '\u{c}'
}

/// First index at or after `i` that is not a word character (or the end).
pub open spec fn word_end(s: Seq<char>, i: int) -> int
    decreases s.len() - i,
{
    if 0 <= i < s.len() && is_word_char(s[i]) {
        word_end(s, i + 1)
    } else {
        i
    }
}

pub proof fn lemma_word_end(s: Seq<char>, i: int)
    requires
        0 <= i <= s.len(),
    ensures
        i <= word_end(s, i) <= s.len(),
        forall|k: int| i <= k < word_end(s, i) ==> is_word_char(#[trigger] s[k]),
        word_end(s, i) < s.len() ==> !is_word_char(s[word_end(s, i)]),
    decreases s.len() - i,
{
    if i < s.len() && is_word_char(s[i]) {
        lemma_word_end(s, i + 1);
    }
}

/// The command name: the word right after a leading `/`.
pub open spec fn cmd_name_spec(t: Seq<char>) -> Option<Seq<char>> {
    if t.len() >= 2 && t[0] == '/' && is_word_char(t[1]) {
        Some(t.subrange(1, word_end(t, 1)))
    } else {
        None
    }
}

/// Where the command head ends, counting a well-formed `@...bot` tag in;
/// `None` when a `@` follows the name but is not a well-formed bot tag.
pub open spec fn head_end_spec(t: Seq<char>) -> Option<int> {
    let e = word_end(t, 1);
    if e < t.len() && t[e] == '@' {
        let u = word_end(t, e + 1);
        if u - (e + 1) >= 4 && t.subrange(u - 3, u) == "bot"@ {
            Some(u)
        } else {
            None
        }
    } else {
        Some(e)
    }
}

/// The free-text argument: everything after the first whitespace character
/// that follows the command head.
pub open spec fn cmd_arg_spec(t: Seq<char>) -> Option<Seq<char>> {
    if cmd_name_spec(t) is Some {
        match head_end_spec(t) {
            Some(h) => if h < t.len() && is_space_char(t[h]) {
                Some(t.subrange(h + 1, t.len() as int))
            } else {
                None
            },
            None => None,
        }
    } else {
        None
    }
}

/// A command with its `@...bot` tag stripped; any other text is unchanged.
pub open spec fn clean_cmd_spec(t: Seq<char>) -> Seq<char> {
    if t.len() >= 2 && t[0] == '/' && is_word_char(t[1]) {
        let e = word_end(t, 1);
        if e < t.len() && t[e] == '@' {
            let u = word_end(t, e + 1);
            if u - (e + 1) >= 4 && t.subrange(u - 3, u) == "bot"@ {
                t.subrange(0, e) + t.subrange(u, t.len() as int)
            } else {
                t
            }
        } else {
            t
        }
    } else {
        t
    }
}

/// Lifts [`cmd_name_spec`] over an optional message text.
pub open spec fn msg_cmd_name(mt: Option<Seq<char>>) -> Option<Seq<char>> {
    match mt {
        Some(t) => cmd_name_spec(t),
        None => None,
    }
}

/// Lifts [`cmd_arg_spec`] over an optional message text.
pub open spec fn msg_cmd_arg(mt: Option<Seq<char>>) -> Option<Seq<char>> {
    match mt {
        Some(t) => cmd_arg_spec(t),
        None => None,
    }
}

/// Whether an optional message text is the command `pat`.
pub open spec fn is_cmd_spec(mt: Option<Seq<char>>, pat: Seq<char>) -> bool {
    msg_cmd_name(mt) == Some(pat)
}

fn word_char(c: char) -> (r: bool)
    ensures
        r == is_word_char(c),
{
    let u = c as u32;
    ('a' as u32 <= u && u <= 'z' as u32) || ('A' as u32 <= u && u <= 'Z' as u32) || ('0' as u32
        <= u && u <= '9' as u32) || c == '_'
}

fn space_char(c: char) -> (r: bool)
    ensures
        r == is_space_char(c),
{
    c == ' ' || c == '\t' || c == '\n' || c == '\r' || c == '\u{b}' || c == '\u{c}'
}

fn scan_word_end(t: &str, from: usize) -> (e: usize)
    requires
        from <= t@.len(),
    ensures
        e == word_end(t@, from as int),
        from <= e <= t@.len(),
    decreases t@.len() - from,
{
    let n = t.unicode_len();
    let mut i: usize = from;
    while i < n
        invariant
            from <= i <= n,
            n == t@.len(),
            word_end(t@, from as int) == word_end(t@, i as int),
        decreases n - i,
    {
        if !word_char(t.get_char(i)) {
            proof {
                lemma_word_end(t@, from as int);
            }
            return i;
        }
        i += 1;
    }
    proof {
        lemma_word_end(t@, from as int);
    }
    i
}

/// Exact character-for-character equality of two string slices.
pub fn str_eq(a: &str, b: &str) -> (r: bool)
    ensures
        r == (a@ == b@),
{
    let na = a.unicode_len();
    let nb = b.unicode_len();
    if na != nb {
        proof {
            assert(a@ != b@);
        }
        return false;
    }
    let mut i: usize = 0;
    while i < na
        invariant
            i <= na,
            na == a@.len(),
            na == b@.len(),
            forall|k: int| 0 <= k < i ==> a@[k] == b@[k],
        decreases na - i,
    {
        if a.get_char(i) != b.get_char(i) {
            proof {
                assert(a@[i as int] != b@[i as int]);
            }
            return false;
        }
        i += 1;
    }
    proof {
        assert(a@ =~= b@);
    }
    true
}

/// Whether `a` begins with `p`.
pub fn str_starts_with(a: &str, p: &str) -> (r: bool)
    ensures
        r == (a@.len() >= p@.len() && a@.subrange(0, p@.len() as int) == p@),
{
    let na = a.unicode_len();
    let np = p.unicode_len();
    if na < np {
        return false;
    }
    let head = a.substring_char(0, np);
    str_eq(head, p)
}

/// Parse a command name out of raw text.
pub fn str_cmd_name(t: &str) -> (r: Option<String>)
    ensures
        (r is None) == (cmd_name_spec(t@) is None),
        r matches Some(s) ==> cmd_name_spec(t@) == Some(s@),
{
    let n = t.unicode_len();
    if n < 2 {
        return None;
    }
    if t.get_char(0) != '/' {
        return None;
    }
    if !word_char(t.get_char(1)) {
        return None;
    }
    let e = scan_word_end(t, 1);
    proof {
        lemma_word_end(t@, 1);
    }
    Some(String::from_str(t.substring_char(1, e)))
}

/// Parse a command argument out of raw text.
pub fn str_cmd_arg(t: &str) -> (r: Option<String>)
    ensures
        (r is None) == (cmd_arg_spec(t@) is None),
        r matches Some(s) ==> cmd_arg_spec(t@) == Some(s@),
{
    let n = t.unicode_len();
    if n < 2 {
        return None;
    }
    if t.get_char(0) != '/' {
        return None;
    }
    if !word_char(t.get_char(1)) {
        return None;
    }
    let e = scan_word_end(t, 1);
    proof {
        lemma_word_end(t@, 1);
    }
    let h: usize;
    if e < n && t.get_char(e) == '@' {
        let u = scan_word_end(t, e + 1);
        proof {
            lemma_word_end(t@, e + 1);
        }
        if u - (e + 1) >= 4 && t.get_char(u - 3) == 'b' && t.get_char(u - 2) == 'o' && t.get_char(
            u - 1,
        ) == 't' {
            proof {
                reveal_strlit("bot");
                assert(t@.subrange(u - 3, u as int) =~= "bot"@);
            }
            h = u;
        } else {
            proof {
                reveal_strlit("bot");
                if u - (e + 1) >= 4 {
                    assert(t@.subrange(u - 3, u as int) != "bot"@) by {
                        let sub = t@.subrange(u - 3, u as int);
                        if sub == "bot"@ {
                            assert(sub[0] == 'b' && sub[1] == 'o' && sub[2] == 't');
                            assert(t@[u - 3] == 'b' && t@[u - 2] == 'o' && t@[u - 1] == 't');
                        }
                    }
                }
            }
            return None;
        }
    } else {
        h = e;
    }
    if h < n && space_char(t.get_char(h)) {
        Some(String::from_str(t.substring_char(h + 1, n)))
    } else {
        None
    }
}

/// The segments of `s` between maximal whitespace runs, in order. A
/// leading or trailing run contributes an empty segment, as does the empty
/// text itself (one empty segment).
pub open spec fn split_ws(s: Seq<char>) -> Seq<Seq<char>>
    decreases s.len(),
{
    if s.len() == 0 {
        seq![Seq::<char>::empty()]
    } else {
        let rest = split_ws(s.drop_last());
        if is_space_char(s.last()) {
            if s.len() == 1 || !is_space_char(s[s.len() - 2]) {
                // a separator begins: open a fresh (so far empty) segment
                rest.push(Seq::<char>::empty())
            } else {
                // the separator continues
                rest
            }
        } else {
            // extend the segment being built
            rest.update(rest.len() - 1, rest.last().push(s.last()))
        }
    }
}

pub proof fn lemma_split_ws_nonempty(s: Seq<char>)
    ensures
        split_ws(s).len() >= 1,
    decreases s.len(),
{
    if s.len() > 0 {
        lemma_split_ws_nonempty(s.drop_last());
    }
}

fn space_char_at(t: &str, i: usize) -> (r: bool)
    requires
        i < t@.len(),
    ensures
        r == is_space_char(t@[i as int]),
{
    space_char(t.get_char(i))
}

/// Split `t` at maximal whitespace runs.
pub fn split_whitespace_runs(t: &str) -> (r: Vec<String>)
    ensures
        r@.map_values(|p: String| p@) == split_ws(t@),
{
    let n = t.unicode_len();
    let mut pieces: Vec<String> = Vec::new();
    pieces.push(String::new());
    proof {
        assert(t@.take(0) =~= Seq::<char>::empty());
        assert(pieces@.map_values(|p: String| p@) =~= split_ws(t@.take(0)));
    }
    let mut k: usize = 0;
    while k < n
        invariant
            k <= n,
            n == t@.len(),
            pieces@.len() >= 1,
            pieces@.map_values(|p: String| p@) == split_ws(t@.take(k as int)),
        decreases n - k,
    {
        let ghost pre = pieces@;
        proof {
            let cur = t@.take(k + 1);
            assert(cur.drop_last() =~= t@.take(k as int));
            assert(cur.last() == t@[k as int]);
            if k > 0 {
                assert(cur[cur.len() - 2] == t@[k - 1]);
            }
        }
        if space_char_at(t, k) {
            let run_continues = k > 0 && space_char_at(t, k - 1);
            if !run_continues {
                pieces.push(String::new());
                proof {
                    assert(pieces@.map_values(|p: String| p@) =~= pre.map_values(
                        |p: String| p@,
                    ).push(Seq::<char>::empty()));
                }
            }
        } else {
            let mut last = match pieces.pop() {
                Some(p) => p,
                None => String::new(),  // unreachable: never empty
            };
            last.append(t.substring_char(k, k + 1));
            pieces.push(last);
            proof {
                let f = |p: String| p@;
                let c = t@[k as int];
                assert(t@.subrange(k as int, k + 1) =~= seq![c]);
                // the rebuilt last piece reads as the old one with `c` on
                assert(pieces@[pre.len() - 1]@ =~= pre[pre.len() - 1]@ + seq![c]);
                assert(pieces@[pre.len() - 1]@ =~= pre[pre.len() - 1]@.push(c));
                let target = pre.map_values(f).update(
                    pre.len() - 1,
                    pre.map_values(f).last().push(c),
                );
                assert forall|i: int| 0 <= i < pieces@.len()
                    implies #[trigger] pieces@.map_values(f)[i] == target[i] by {
                    if i < pre.len() - 1 {
                        assert(pieces@[i] == pre[i]);
                    }
                }
                assert(pieces@.map_values(f) =~= target);
            }
        }
        k += 1;
    }
    proof {
        assert(t@.take(n as int) =~= t@);
    }
    pieces
}

/// Message-side view of the command grammar.
pub trait TgMessageExt {
    /// The text carried by the event, if any.
    spec fn msg_text(&self) -> Option<Seq<char>>;

    /// Whether the event replies to a message the bot sent.
    spec fn msg_reply_is_bot(&self) -> bool;

    /// The text of the replied-to message, if any.
    spec fn msg_reply_text(&self) -> Option<Seq<char>>;

    /// The command name, when the text is a command.
    fn cmd_name(&self) -> (r: Option<String>)
        ensures
            (r is None) == (msg_cmd_name(self.msg_text()) is None),
            r matches Some(s) ==> msg_cmd_name(self.msg_text()) == Some(s@),
    ;

    /// The free-text argument after the command, when present.
    fn cmd_arg(&self) -> (r: Option<String>)
        ensures
            (r is None) == (msg_cmd_arg(self.msg_text()) is None),
            r matches Some(s) ==> msg_cmd_arg(self.msg_text()) == Some(s@),
    ;

    /// Whether the text is exactly the command `pat`.
    fn is_cmd(&self, pat: &str) -> (r: bool)
        ensures
            r == is_cmd_spec(self.msg_text(), pat@),
    ;

    /// The command argument split at maximal whitespace runs; a missing
    /// argument splits as the empty text (one empty piece).
    fn cmd_args(&self) -> (r: Vec<String>)
        ensures
            r@.map_values(|p: String| p@) == split_ws(
                match msg_cmd_arg(self.msg_text()) {
                    Some(a) => a,
                    None => Seq::<char>::empty(),
                },
            ),
    ;

    /// The raw text, if any.
    fn text_content(&self) -> (r: Option<String>)
        ensures
            (r is None) == (self.msg_text() is None),
            r matches Some(s) ==> self.msg_text() == Some(s@),
    ;

    /// Whether this replies to one of the bot's own messages.
    fn is_reply_to_bot(&self) -> (r: bool)
        ensures
            r == self.msg_reply_is_bot(),
    ;

    /// Whether this replies to a bot prompt whose text was exactly `prompt`.
    fn is_force_reply(&self, prompt: &str) -> (r: bool)
        ensures
            r == (self.msg_reply_text() == Some(prompt@)),
    ;

    /// Strip a `@...bot` tag off a command in place.
    fn clean_cmd(&mut self)
        ensures
            final(self).msg_text() == (match old(self).msg_text() {
                Some(t) => Some(clean_cmd_spec(t)),
                None => None,
            }),
            final(self).msg_reply_is_bot() == old(self).msg_reply_is_bot(),
            final(self).msg_reply_text() == old(self).msg_reply_text(),
    ;
}

impl TgMessageExt for IncomingMessage {
    open spec fn msg_text(&self) -> Option<Seq<char>> {
        match self.text {
            Some(t) => Some(t@),
            None => None,
        }
    }

    open spec fn msg_reply_is_bot(&self) -> bool {
        match self.reply_to {
            Some(r) => r.from_bot,
            None => false,
        }
    }

    open spec fn msg_reply_text(&self) -> Option<Seq<char>> {
        match self.reply_to {
            Some(r) => match r.text {
                Some(t) => Some(t@),
                None => None,
            },
            None => None,
        }
    }

    fn cmd_name(&self) -> (r: Option<String>) {
        match &self.text {
            Some(t) => str_cmd_name(t.as_str()),
            None => None,
        }
    }

    fn cmd_arg(&self) -> (r: Option<String>) {
        match &self.text {
            Some(t) => str_cmd_arg(t.as_str()),
            None => None,
        }
    }

    fn is_cmd(&self, pat: &str) -> (r: bool) {
        match self.cmd_name() {
            Some(name) => str_eq(name.as_str(), pat),
            None => false,
        }
    }

    fn cmd_args(&self) -> (r: Vec<String>) {
        match self.cmd_arg() {
            Some(a) => split_whitespace_runs(a.as_str()),
            None => {
                let r = split_whitespace_runs("");
                proof {
                    reveal_strlit("");
                    assert(""@ =~= Seq::<char>::empty());
                }
                r
            },
        }
    }

    fn text_content(&self) -> (r: Option<String>) {
        match &self.text {
            Some(t) => Some(t.clone()),
            None => None,
        }
    }

    fn is_reply_to_bot(&self) -> (r: bool) {
        match &self.reply_to {
            Some(rt) => rt.from_bot,
            None => false,
        }
    }

    fn is_force_reply(&self, prompt: &str) -> (r: bool) {
        match &self.reply_to {
            Some(rt) => match &rt.text {
                Some(t) => str_eq(t.as_str(), prompt),
                None => false,
            },
            None => false,
        }
    }

    fn clean_cmd(&mut self) {
        let cleaned: Option<String> = match &self.text {
            Some(t) => Some(str_clean_cmd(t.as_str())),
            None => None,
        };
        self.text = cleaned;
    }
}

/// Strip a `@...bot` tag off a command in raw text.
pub fn str_clean_cmd(t: &str) -> (r: String)
    ensures
        r@ == clean_cmd_spec(t@),
{
    let n = t.unicode_len();
    if n < 2 {
        return String::from_str(t);
    }
    if t.get_char(0) != '/' {
        return String::from_str(t);
    }
    if !word_char(t.get_char(1)) {
        return String::from_str(t);
    }
    let e = scan_word_end(t, 1);
    proof {
        lemma_word_end(t@, 1);
    }
    if e < n && t.get_char(e) == '@' {
        let u = scan_word_end(t, e + 1);
        proof {
            lemma_word_end(t@, e + 1);
        }
        if u - (e + 1) >= 4 && t.get_char(u - 3) == 'b' && t.get_char(u - 2) == 'o' && t.get_char(
            u - 1,
        ) == 't' {
            proof {
                reveal_strlit("bot");
                assert(t@.subrange(u - 3, u as int) =~= "bot"@);
            }
            let head = t.substring_char(0, e);
            let tail = t.substring_char(u, n);
            String::from_str(head).concat(tail)
        } else {
            proof {
                reveal_strlit("bot");
                if u - (e + 1) >= 4 {
                    assert(t@.subrange(u - 3, u as int) != "bot"@) by {
                        let sub = t@.subrange(u - 3, u as int);
                        if sub == "bot"@ {
                            assert(sub[0] == 'b' && sub[1] == 'o' && sub[2] == 't');
                            assert(t@[u - 3] == 'b' && t@[u - 2] == 'o' && t@[u - 1] == 't');
                        }
                    }
                }
            }
            String::from_str(t)
        }
    } else {
        String::from_str(t)
    }
}

/// First index of `c` in `s` at or after `i` (or the length when absent).
pub open spec fn find_from(s: Seq<char>, c: char, i: int) -> int
    decreases s.len() - i,
{
    if 0 <= i < s.len() {
        if s[i] == c {
            i
        } else {
            find_from(s, c, i + 1)
        }
    } else {
        i
    }
}

pub proof fn lemma_find_from(s: Seq<char>, c: char, i: int)
    requires
        0 <= i <= s.len(),
    ensures
        i <= find_from(s, c, i) <= s.len(),
        forall|k: int| i <= k < find_from(s, c, i) ==> #[trigger] s[k] != c,
        find_from(s, c, i) < s.len() ==> s[find_from(s, c, i)] == c,
    decreases s.len() - i,
{
    if i < s.len() && s[i] != c {
        lemma_find_from(s, c, i + 1);
    }
}

fn scan_find(t: &str, c: char, from: usize) -> (e: usize)
    requires
        from <= t@.len(),
    ensures
        e == find_from(t@, c, from as int),
        from <= e <= t@.len(),
{
    let n = t.unicode_len();
    let mut i: usize = from;
    while i < n
        invariant
            from <= i <= n,
            n == t@.len(),
            find_from(t@, c, from as int) == find_from(t@, c, i as int),
        decreases n - i,
    {
        if t.get_char(i) == c {
            proof {
                lemma_find_from(t@, c, from as int);
            }
            return i;
        }
        i += 1;
    }
    proof {
        lemma_find_from(t@, c, from as int);
    }
    i
}

/// The plugin-name prefix of callback data: everything ahead of the first
/// `.`, or the whole payload when there is none.
pub open spec fn callback_ext_spec(d: Seq<char>) -> Seq<char> {
    d.subrange(0, find_from(d, '.', 0))
}

/// The key of callback data: everything after the first `.`, when present.
pub open spec fn callback_key_spec(d: Seq<char>) -> Option<Seq<char>> {
    let i = find_from(d, '.', 0);
    if i < d.len() {
        Some(d.subrange(i + 1, d.len() as int))
    } else {
        None
    }
}

/// Callback-side view of the namespaced payload.
pub trait TgCallbackQueryExt {
    /// The raw payload.
    spec fn cb_data(&self) -> Seq<char>;

    /// The plugin-name prefix used for routing.
    fn ext(&self) -> (r: Option<String>)
        ensures
            r matches Some(s) && s@ == callback_ext_spec(self.cb_data()),
    ;

    /// The plugin-private key after the prefix.
    fn key(&self) -> (r: Option<String>)
        ensures
            (r is None) == (callback_key_spec(self.cb_data()) is None),
            r matches Some(s) ==> callback_key_spec(self.cb_data()) == Some(s@),
    ;
}

impl TgCallbackQueryExt for CallbackQuery {
    open spec fn cb_data(&self) -> Seq<char> {
        self.data@
    }

    fn ext(&self) -> (r: Option<String>) {
        let d = self.data.as_str();
        let i = scan_find(d, '.', 0);
        Some(String::from_str(d.substring_char(0, i)))
    }

    fn key(&self) -> (r: Option<String>) {
        let d = self.data.as_str();
        let n = d.unicode_len();
        let i = scan_find(d, '.', 0);
        if i < n {
            Some(String::from_str(d.substring_char(i + 1, n)))
        } else {
            None
        }
    }
}

} // verus!
