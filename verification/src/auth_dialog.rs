//! NetworkManager's VPN auth-dialog protocol, as spoken by the password
//! prompt: the `DATA_KEY=`/`DATA_VAL=`/`SECRET_KEY=`/`SECRET_VAL=`/`DONE`
//! lines that the secret agent writes to the dialog, and the
//! `key\nvalue\n` pairs, closed by a blank line, that the dialog answers.
use vstd::prelude::*;

use crate::keyed::StrMap;
use crate::text::{
    drop_cr, find_from, has_prefix, lemma_lines_concat, lines, lines_from, owned, split_lines,
    str_eq, strip_prefix_str,
};

verus! {

broadcast use vstd::string::group_string_axioms;

/// The state of the protocol reader after some lines.
pub struct ProtocolState {
    /// The `DATA_KEY`/`DATA_VAL` pairs read so far.
    pub data: Map<Seq<char>, Seq<char>>,
    /// The `SECRET_KEY`/`SECRET_VAL` pairs read so far.
    pub secrets: Map<Seq<char>, Seq<char>>,
    /// A key that waits for its value: `true` for a secret, `false` for data.
    pub pending: Option<(bool, Seq<char>)>,
    /// A `DONE` line has been read.
    pub done: bool,
}

/// The state before any line.
pub open spec fn initial_state() -> ProtocolState {
    ProtocolState { data: Map::empty(), secrets: Map::empty(), pending: None, done: false }
}

/// A key line: `pending` becomes the key.
pub open spec fn with_pending(st: ProtocolState, p: Option<(bool, Seq<char>)>) -> ProtocolState {
    ProtocolState { data: st.data, secrets: st.secrets, pending: p, done: st.done }
}

/// A value line: the pending key of the same kind, if any, receives the
/// value, and no key is pending afterwards.
pub open spec fn take_value(st: ProtocolState, secret: bool, value: Seq<char>) -> ProtocolState {
    match st.pending {
        Some((s, k)) => if s == secret {
            if secret {
                ProtocolState {
                    data: st.data,
                    secrets: st.secrets.insert(k, value),
                    pending: None,
                    done: st.done,
                }
            } else {
                ProtocolState {
                    data: st.data.insert(k, value),
                    secrets: st.secrets,
                    pending: None,
                    done: st.done,
                }
            }
        } else {
            with_pending(st, None)
        },
        None => with_pending(st, None),
    }
}

/// The effect of one line on the reader.
pub open spec fn step(st: ProtocolState, line: Seq<char>) -> ProtocolState {
    if line == "DONE"@ {
        ProtocolState { data: st.data, secrets: st.secrets, pending: st.pending, done: true }
    } else if has_prefix(line, "DATA_KEY="@) {
        with_pending(st, Some((false, line.skip("DATA_KEY="@.len() as int))))
    } else if has_prefix(line, "DATA_VAL="@) {
        take_value(st, false, line.skip("DATA_VAL="@.len() as int))
    } else if has_prefix(line, "SECRET_KEY="@) {
        with_pending(st, Some((true, line.skip("SECRET_KEY="@.len() as int))))
    } else if has_prefix(line, "SECRET_VAL="@) {
        take_value(st, true, line.skip("SECRET_VAL="@.len() as int))
    } else {
        st
    }
}

/// The state after reading `ls`, one line after the other, up to and
/// including the first `DONE` line.
pub open spec fn state_after(ls: Seq<Seq<char>>) -> ProtocolState
    decreases ls.len(),
{
    if ls.len() == 0 {
        initial_state()
    } else {
        let prev = state_after(ls.drop_last());
        if prev.done {
            prev
        } else {
            step(prev, ls.last())
        }
    }
}

/// What the auth dialog read from its standard input.
pub struct StdinContext {
    /// The connection's data items.
    pub data: StrMap<String>,
    /// The connection's secrets.
    pub secrets: StrMap<String>,
}

impl StdinContext {
    /// A context with no data and no secrets.
    pub fn new() -> (r: Self)
        ensures
            r.data@ == Map::<Seq<char>, Seq<char>>::empty(),
            r.secrets@ == Map::<Seq<char>, Seq<char>>::empty(),
    {
        StdinContext { data: StrMap::new(), secrets: StrMap::new() }
    }

    /// The user name to prefill: the `username` secret, else the
    /// `username` data item.
    pub fn known_username(&self) -> (r: Option<String>)
        ensures
            match r {
                Some(u) => if self.secrets@.contains_key("username"@) {
                    u@ == self.secrets@["username"@]
                } else {
                    self.data@.contains_key("username"@) && u@ == self.data@["username"@]
                },
                None => !self.secrets@.contains_key("username"@) && !self.data@.contains_key(
                    "username"@,
                ),
            },
    {
        match self.secrets.get("username") {
            Some(u) => Some(u.clone()),
            None => match self.data.get("username") {
                Some(u) => Some(u.clone()),
                None => None,
            },
        }
    }
}

impl Default for StdinContext {
    fn default() -> (r: Self)
        ensures
            r.data@ == Map::<Seq<char>, Seq<char>>::empty(),
            r.secrets@ == Map::<Seq<char>, Seq<char>>::empty(),
    {
        StdinContext::new()
    }
}

/// Once a `DONE` line has been read, later lines change nothing.
proof fn lemma_done_is_final(ls: Seq<Seq<char>>, rest: Seq<Seq<char>>)
    requires
        state_after(ls).done,
    ensures
        state_after(ls + rest) == state_after(ls),
    decreases rest.len(),
{
    if rest.len() == 0 {
        assert(ls + rest =~= ls);
    } else {
        lemma_done_is_final(ls, rest.drop_last());
        assert((ls + rest).drop_last() =~= ls + rest.drop_last());
    }
}

/// The end of the input counts as a `DONE` line: whatever follows the
/// first `DONE` line is ignored, and a missing `DONE` changes nothing.
pub proof fn lemma_done_ends_input(ls: Seq<Seq<char>>, rest: Seq<Seq<char>>)
    ensures
        state_after(ls + seq!["DONE"@] + rest).data == state_after(ls).data,
        state_after(ls + seq!["DONE"@] + rest).secrets == state_after(ls).secrets,
{
    let with_done = ls + seq!["DONE"@];
    assert(with_done.drop_last() =~= ls);
    assert(state_after(with_done).done);
    lemma_done_is_final(with_done, rest);
}

/// The auth-dialog protocol reader, fed one line at a time, so that the
/// caller stops reading its input at the `DONE` line.
pub struct ProtocolReader {
    data: StrMap<String>,
    secrets: StrMap<String>,
    pending: Option<(bool, String)>,
    done: bool,
}

impl View for ProtocolReader {
    type V = ProtocolState;

    closed spec fn view(&self) -> ProtocolState {
        ProtocolState {
            data: self.data@,
            secrets: self.secrets@,
            pending: match self.pending {
                Some((s, k)) => Some((s, k@)),
                None => None,
            },
            done: self.done,
        }
    }
}

impl ProtocolReader {
    /// A reader that has read nothing yet.
    pub fn new() -> (r: Self)
        ensures
            r@ == initial_state(),
    {
        let r = ProtocolReader {
            data: StrMap::new(),
            secrets: StrMap::new(),
            pending: None,
            done: false,
        };
        assert(r@ == initial_state());
        r
    }

    /// Reads one line; the answer tells whether more lines are wanted
    /// (false once a `DONE` line has been read).
    pub fn feed(&mut self, line: &str) -> (more: bool)
        ensures
            final(self)@ == (if old(self)@.done {
                old(self)@
            } else {
                step(old(self)@, line@)
            }),
            more == !final(self)@.done,
    {
        if self.done {
            return false;
        }
        if str_eq(line, "DONE") {
            self.done = true;
        } else if let Some(v) = strip_prefix_str(line, "DATA_KEY=") {
            self.pending = Some((false, v));
        } else if let Some(v) = strip_prefix_str(line, "DATA_VAL=") {
            let pending = self.pending.take();
            match pending {
                Some((false, k)) => {
                    self.data.insert(k, v);
                },
                _ => {},
            }
        } else if let Some(v) = strip_prefix_str(line, "SECRET_KEY=") {
            self.pending = Some((true, v));
        } else if let Some(v) = strip_prefix_str(line, "SECRET_VAL=") {
            let pending = self.pending.take();
            match pending {
                Some((true, k)) => {
                    self.secrets.insert(k, v);
                },
                _ => {},
            }
        }
        !self.done
    }

    /// What has been read.
    pub fn finish(self) -> (ctx: StdinContext)
        ensures
            ctx.data@ == self@.data,
            ctx.secrets@ == self@.secrets,
    {
        StdinContext { data: self.data, secrets: self.secrets }
    }
}

/// Reads the protocol from its lines: alternating `DATA_KEY=`/`DATA_VAL=`
/// and `SECRET_KEY=`/`SECRET_VAL=` lines, up to a `DONE` line or the end
/// of the lines.
pub fn parse_stdin_lines(ls: &Vec<String>) -> (ctx: StdinContext)
    ensures
        ctx.data@ == state_after(ls.deep_view()).data,
        ctx.secrets@ == state_after(ls.deep_view()).secrets,
{
    let ghost all = ls.deep_view();
    let mut reader = ProtocolReader::new();
    let mut i: usize = 0;
    while i < ls.len()
        invariant
            i <= ls@.len(),
            all == ls.deep_view(),
            reader@ == state_after(all.take(i as int)),
            !reader@.done,
        decreases ls@.len() - i,
    {
        assert(all.take(i + 1).drop_last() =~= all.take(i as int));
        assert(all.take(i + 1).last() == ls@[i as int]@);
        let more = reader.feed(ls[i].as_str());
        if !more {
            proof {
                lemma_done_is_final(all.take(i + 1), all.skip(i + 1));
                assert(all.take(i + 1) + all.skip(i + 1) =~= all);
            }
            return reader.finish();
        }
        i = i + 1;
    }
    assert(all.take(i as int) =~= all);
    reader.finish()
}

/// Parses NetworkManager's auth-dialog input: the lines of `input`, read
/// as `parse_stdin_lines` reads them.
pub fn parse_stdin_protocol(input: &str) -> (ctx: StdinContext)
    ensures
        ctx.data@ == state_after(lines(input@)).data,
        ctx.secrets@ == state_after(lines(input@)).secrets,
{
    let ls = split_lines(input);
    parse_stdin_lines(&ls)
}

/// The answer that NetworkManager expects on the dialog's standard output.
pub open spec fn secrets_output(username: Seq<char>, password: Seq<char>) -> Seq<char> {
    "username\n"@ + username + "\npassword\n"@ + password + "\n\n"@
}

/// Formats the collected secrets per NetworkManager's expected stdout
/// format: alternating `key\nvalue\n` lines, then a blank-line terminator.
pub fn format_secrets_output(username: &str, password: &str) -> (r: String)
    ensures
        r@ == secrets_output(username@, password@),
{
    let mut out = owned("username\n");
    out.append(username);
    out.append("\npassword\n");
    out.append(password);
    out.append("\n\n");
    out
}

/// The first line break at or after `start` is the one at `i` when none
/// lies between.
proof fn lemma_next_line_break(s: Seq<char>, start: int, i: int)
    requires
        0 <= start <= i < s.len(),
        s[i] == '\n',
        forall|t: int| start <= t < i ==> s[t] != '\n',
    ensures
        find_from(s, seq!['\n'], start) == Some(i),
    decreases i - start,
{
    if start == i {
        assert(s.subrange(i, i + 1) =~= seq!['\n']);
    } else {
        assert(s.subrange(start, start + 1) != seq!['\n']) by {
            assert(s.subrange(start, start + 1)[0] == s[start]);
        }
        lemma_next_line_break(s, start + 1, i);
    }
}

/// Read back line by line, the dialog's answer is `username`, the user
/// name, `password`, the password, and the blank line that closes it,
/// whenever neither the user name nor the password holds a line break
/// (a carriage return before a line break is dropped, as line readers do).
pub proof fn lemma_secrets_output_lines(u: Seq<char>, p: Seq<char>)
    requires
        !u.contains('\n'),
        !p.contains('\n'),
    ensures
        lines(secrets_output(u, p)) == seq![
            "username"@,
            drop_cr(u),
            "password"@,
            drop_cr(p),
            Seq::<char>::empty(),
        ],
{
    reveal_strlit("username\n");
    reveal_strlit("\npassword\n");
    reveal_strlit("\n\n");
    reveal_strlit("username");
    reveal_strlit("password");
    let s = secrets_output(u, p);
    let a = "username\n"@;
    let b = "\npassword\n"@;
    let c = "\n\n"@;
    let nu = u.len() as int;
    let np = p.len() as int;
    assert(s == a + u + b + p + c);
    assert(s.len() == 21 + nu + np);
    // where each line ends
    let e1: int = 8;
    let e2: int = 9 + nu;
    let e3: int = 18 + nu;
    let e4: int = 19 + nu + np;
    let e5: int = 20 + nu + np;
    assert forall|t: int| 0 <= t < 9 implies s[t] == a[t] by {}
    assert forall|t: int| 0 <= t < nu implies s[9 + t] == u[t] by {}
    assert forall|t: int| 0 <= t < 10 implies s[9 + nu + t] == b[t] by {}
    assert forall|t: int| 0 <= t < np implies s[19 + nu + t] == p[t] by {}
    assert forall|t: int| 0 <= t < 2 implies s[19 + nu + np + t] == c[t] by {}
    // line 1
    assert forall|t: int| 0 <= t < e1 implies s[t] != '\n' by {
        assert(s[t] == a[t]);
    }
    lemma_next_line_break(s, 0, e1);
    assert(s.subrange(0, e1) =~= "username"@);
    // line 2
    assert forall|t: int| 9 <= t < e2 implies s[t] != '\n' by {
        assert(s[t] == u[t - 9]);
        if s[t] == '\n' {
            assert(u.contains('\n'));
        }
    }
    assert(s[e2] == b[0]);
    lemma_next_line_break(s, 9, e2);
    assert(s.subrange(9, e2) =~= u);
    // line 3
    assert forall|t: int| e2 + 1 <= t < e3 implies s[t] != '\n' by {
        assert(s[t] == b[t - 9 - nu]);
    }
    assert(s[e3] == b[9]);
    lemma_next_line_break(s, e2 + 1, e3);
    assert(s.subrange(e2 + 1, e3) =~= "password"@);
    // line 4
    assert forall|t: int| e3 + 1 <= t < e4 implies s[t] != '\n' by {
        assert(s[t] == p[t - 19 - nu]);
        if s[t] == '\n' {
            assert(p.contains('\n'));
        }
    }
    assert(s[e4] == c[0]);
    lemma_next_line_break(s, e3 + 1, e4);
    assert(s.subrange(e3 + 1, e4) =~= p);
    // line 5: the blank terminator
    assert(s[e5] == c[1]);
    lemma_next_line_break(s, e4 + 1, e5);
    assert(s.subrange(e4 + 1, e5) =~= Seq::<char>::empty());
    assert(drop_cr(Seq::<char>::empty()) == Seq::<char>::empty());
    assert(drop_cr("username"@) == "username"@);
    assert(drop_cr("password"@) == "password"@);
    assert(lines_from(s, e5 + 1) == Seq::<Seq<char>>::empty());
    assert(lines_from(s, e4 + 1) =~= seq![Seq::<char>::empty()]);
    assert(lines_from(s, e3 + 1) =~= seq![drop_cr(p), Seq::<char>::empty()]);
    assert(lines_from(s, e2 + 1) =~= seq!["password"@, drop_cr(p), Seq::<char>::empty()]);
    assert(lines_from(s, 9) =~= seq![
        drop_cr(u),
        "password"@,
        drop_cr(p),
        Seq::<char>::empty(),
    ]);
    assert(lines_from(s, 0) =~= seq![
        "username"@,
        drop_cr(u),
        "password"@,
        drop_cr(p),
        Seq::<char>::empty(),
    ]);
}

/// On the text of the input: a `DONE` line ends it, so that what follows
/// the line is ignored, and an input that simply stops reads the same.
pub proof fn lemma_done_line_ends_text(a: Seq<char>, b: Seq<char>)
    requires
        a.len() == 0 || a.last() == '\n',
    ensures
        state_after(lines(a + "DONE\n"@ + b)).data == state_after(lines(a)).data,
        state_after(lines(a + "DONE\n"@ + b)).secrets == state_after(lines(a)).secrets,
{
    reveal_strlit("DONE\n");
    reveal_strlit("DONE");
    let d = "DONE\n"@;
    assert(a + d + b =~= a + (d + b));
    lemma_lines_concat(a, d + b);
    lemma_lines_concat(d, b);
    lemma_next_line_break(d, 0, 4);
    assert(d.subrange(0, 4) =~= "DONE"@);
    assert(lines_from(d, 5) =~= Seq::<Seq<char>>::empty());
    assert(lines(d) =~= seq!["DONE"@]);
    assert(lines(a + d + b) =~= lines(a) + seq!["DONE"@] + lines(b));
    lemma_done_ends_input(lines(a), lines(b));
}

/// Reading a `DATA_VAL=` line gives the pending data key, if any, the
/// line's value, and leaves every other data item, and every secret, as
/// it was; afterwards no key is pending.
pub proof fn lemma_data_value_line_frame(ls: Seq<Seq<char>>, line: Seq<char>)
    requires
        !state_after(ls).done,
        has_prefix(line, "DATA_VAL="@),
    ensures
        ({
            let before = state_after(ls);
            let after = state_after(ls.push(line));
            &&& after.secrets == before.secrets
            &&& forall|k2: Seq<char>|
                before.pending != Some((false, k2)) ==> (#[trigger] after.data.contains_key(k2)
                    == before.data.contains_key(k2) && (before.data.contains_key(k2)
                    ==> after.data[k2] == before.data[k2]))
            &&& (before.pending matches Some((false, k)) ==> after.data.contains_key(k)
                && after.data[k] == line.skip(9))
            &&& after.pending is None
            &&& !after.done
        }),
{
    reveal_strlit("DATA_VAL=");
    reveal_strlit("DATA_KEY=");
    reveal_strlit("DONE");
    assert(ls.push(line).drop_last() =~= ls);
    assert(line.take(9)[5] == line[5]);
    assert(line != "DONE"@);
    assert(!has_prefix(line, "DATA_KEY="@)) by {
        if has_prefix(line, "DATA_KEY="@) {
            assert(line.take(9)[5] == "DATA_KEY="@[5]);
        }
    }
}

/// Reading a `SECRET_VAL=` line gives the pending secret key, if any, the
/// line's value, and leaves every other secret, and every data item, as
/// it was; afterwards no key is pending.
pub proof fn lemma_secret_value_line_frame(ls: Seq<Seq<char>>, line: Seq<char>)
    requires
        !state_after(ls).done,
        has_prefix(line, "SECRET_VAL="@),
    ensures
        ({
            let before = state_after(ls);
            let after = state_after(ls.push(line));
            &&& after.data == before.data
            &&& forall|k2: Seq<char>|
                before.pending != Some((true, k2)) ==> (#[trigger] after.secrets.contains_key(
                    k2,
                ) == before.secrets.contains_key(k2) && (before.secrets.contains_key(k2)
                    ==> after.secrets[k2] == before.secrets[k2]))
            &&& (before.pending matches Some((true, k)) ==> after.secrets.contains_key(k)
                && after.secrets[k] == line.skip(11))
            &&& after.pending is None
            &&& !after.done
        }),
{
    reveal_strlit("SECRET_VAL=");
    reveal_strlit("SECRET_KEY=");
    reveal_strlit("DATA_VAL=");
    reveal_strlit("DATA_KEY=");
    reveal_strlit("DONE");
    assert(ls.push(line).drop_last() =~= ls);
    assert(line.take(11)[0] == line[0]);
    assert(line.take(11)[7] == line[7]);
    assert(line != "DONE"@);
    assert(!has_prefix(line, "DATA_KEY="@)) by {
        if has_prefix(line, "DATA_KEY="@) {
            assert(line.take(9)[0] == line[0]);
            assert(line.take(9)[0] == "DATA_KEY="@[0]);
        }
    }
    assert(!has_prefix(line, "DATA_VAL="@)) by {
        if has_prefix(line, "DATA_VAL="@) {
            assert(line.take(9)[0] == line[0]);
            assert(line.take(9)[0] == "DATA_VAL="@[0]);
        }
    }
    assert(!has_prefix(line, "SECRET_KEY="@)) by {
        if has_prefix(line, "SECRET_KEY="@) {
            assert(line.take(11)[7] == "SECRET_KEY="@[7]);
        }
    }
}

} // verus!
