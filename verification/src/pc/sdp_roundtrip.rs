//! Reading back a printed session description: the lemmas on splitting,
//! trimming, words and decimals that it rests on, and the law itself.
use vstd::prelude::*;
use crate::scan::{
    all_digits, digits_value, find_char, find_ws, has_char, is_ws, lemma_find_char, lemma_find_ws, lemma_trim_start_len,
    parse_uint, split_on, trim, trim_end, trim_start, words,
};
use crate::text::{decimal, digit_char};
use crate::pc::sdp::{
    candidate_lines, conn_line, crlf, direction_text, fmtp_lines, join, media_head, media_tail, media_text,
    medias_text, opt_line, port_text, rtpmap_entries, rtpmap_line, rtpmap_lines, rtpmaps_below, session_attrs,
    session_head, session_lines, session_text, ssrc_lines, ConnectionModel, FmtpModel, MediaModel, RtpMapModel,
    SdpDirection, SessionModel, SsrcModel,
};
use crate::pc::sdp_parse::{
    attr_name, attr_val, conn_model, fmtp_model, line_step, media_attr_step, media_model, parse_lines, parse_or,
    rtpmap_model, with_media, empty_session, finish, parse_model, session_attr_step, ssrc_attr, ParseModel,
    SdpErrModel,
};

verus! {

/// `t` is a nonempty run of characters none of which is whitespace.
pub open spec fn is_token(t: Seq<char>) -> bool {
    t.len() > 0 && forall|i: int| 0 <= i < t.len() ==> !is_ws(#[trigger] t[i])
}

/// `s` does not hold `c`.
pub open spec fn lacks(s: Seq<char>, c: char) -> bool {
    forall|i: int| 0 <= i < s.len() ==> #[trigger] s[i] != c
}

proof fn lemma_find_char_at(s: Seq<char>, c: char, i: int, k: int)
    requires
        0 <= i <= k <= s.len(),
        k < s.len() ==> s[k] == c,
        forall|j: int| i <= j < k ==> s[j] != c,
    ensures
        find_char(s, c, i) == k,
    decreases k - i,
{
    if i < k {
        lemma_find_char_at(s, c, i + 1, k);
    }
}

proof fn lemma_find_ws_at(s: Seq<char>, i: int, k: int)
    requires
        0 <= i <= k <= s.len(),
        k < s.len() ==> is_ws(s[k]),
        forall|j: int| i <= j < k ==> !is_ws(s[j]),
    ensures
        find_ws(s, i) == k,
    decreases k - i,
{
    if i < k {
        lemma_find_ws_at(s, i + 1, k);
    }
}

/// Splitting at the first `c`, when `a` holds none.
pub proof fn lemma_split_at(a: Seq<char>, b: Seq<char>, c: char)
    requires
        lacks(a, c),
    ensures
        split_on(a + seq![c] + b, c) == seq![a] + split_on(b, c),
{
    let s = a + seq![c] + b;
    lemma_find_char_at(s, c, 0, a.len() as int);
    assert(s.subrange(0, a.len() as int) =~= a);
    assert(s.subrange(a.len() + 1int, s.len() as int) =~= b);
}

/// A text without `c` splits into itself.
pub proof fn lemma_split_none(a: Seq<char>, c: char)
    requires
        lacks(a, c),
    ensures
        split_on(a, c) == seq![a],
{
    lemma_find_char_at(a, c, 0, a.len() as int);
}

pub proof fn lemma_words_skip_space(rest: Seq<char>)
    ensures
        words(seq![' '] + rest) == words(rest),
{
    let s = seq![' '] + rest;
    assert(s.drop_first() =~= rest);
    assert(trim_start(s) == trim_start(rest));
}

pub proof fn lemma_words_token_space(t: Seq<char>, rest: Seq<char>)
    requires
        is_token(t),
    ensures
        words(t + seq![' '] + rest) == seq![t] + words(rest),
{
    let s = t + seq![' '] + rest;
    assert(s[0] == t[0]);
    lemma_trim_start_len(s);
    assert forall|j: int| 0 <= j < t.len() implies !is_ws(s[j]) by {
        assert(s[j] == t[j]);
    }
    assert(s[t.len() as int] == ' ');
    lemma_find_ws_at(s, 0, t.len() as int);
    assert(s.subrange(0, t.len() as int) =~= t);
    assert(s.subrange(t.len() as int, s.len() as int) =~= seq![' '] + rest);
    lemma_words_skip_space(rest);
}

pub proof fn lemma_words_token(t: Seq<char>)
    requires
        is_token(t),
    ensures
        words(t) == seq![t],
{
    lemma_trim_start_len(t);
    lemma_find_ws_at(t, 0, t.len() as int);
    assert(t.subrange(0, t.len() as int) =~= t);
    let e = t.subrange(t.len() as int, t.len() as int);
    assert(e.len() == 0);
    assert(trim_start(e) == e);
    assert(words(e) == Seq::<Seq<char>>::empty());
    assert(seq![t] + words(e) =~= seq![t]);
}

/// `join` seen from the front.
pub proof fn lemma_join_front(parts: Seq<Seq<char>>, sep: Seq<char>)
    requires
        parts.len() >= 2,
    ensures
        join(parts, sep) == parts[0] + sep + join(parts.drop_first(), sep),
    decreases parts.len(),
{
    let dl = parts.drop_last();
    let df = parts.drop_first();
    assert(join(parts, sep) == join(dl, sep) + sep + parts.last());
    if parts.len() == 2 {
        assert(dl =~= seq![parts[0]]);
        assert(df =~= seq![parts[1]]);
        assert(join(dl, sep) == parts[0]);
        assert(join(df, sep) == parts[1]);
    } else {
        lemma_join_front(dl, sep);
        assert(dl.drop_first() =~= df.drop_last());
        assert(dl[0] == parts[0]);
        assert(df.last() == parts.last());
        assert(join(df, sep) == join(df.drop_last(), sep) + sep + df.last());
        assert(join(parts, sep) =~= parts[0] + sep + join(df, sep));
    }
}

/// The words of tokens joined by single spaces are the tokens.
pub proof fn lemma_words_join(toks: Seq<Seq<char>>)
    requires
        toks.len() > 0,
        forall|i: int| 0 <= i < toks.len() ==> is_token(#[trigger] toks[i]),
    ensures
        words(join(toks, " "@)) == toks,
    decreases toks.len(),
{
    reveal_strlit(" ");
    assert(" "@ =~= seq![' ']);
    if toks.len() == 1 {
        lemma_words_token(toks[0]);
        assert(seq![toks[0]] =~= toks);
    } else {
        lemma_join_front(toks, " "@);
        let rest = toks.drop_first();
        assert forall|i: int| 0 <= i < rest.len() implies is_token(#[trigger] rest[i]) by {
            assert(rest[i] == toks[i + 1]);
        }
        lemma_words_join(rest);
        lemma_words_token_space(toks[0], join(rest, " "@));
        assert(seq![toks[0]] + rest =~= toks);
    }
}

proof fn lemma_digit_char(d: nat)
    requires
        d < 10,
    ensures
        '0' <= digit_char(d) <= '9',
        (digit_char(d) as u32) - 48 == d,
{
}

/// Decimal text is digits only and reads back as its value.
pub proof fn lemma_decimal(n: nat)
    ensures
        decimal(n).len() > 0,
        all_digits(decimal(n)),
        digits_value(decimal(n)) == n,
        decimal(n)[0] != '+',
        is_token(decimal(n)),
        lacks(decimal(n), '/'),
        lacks(decimal(n), ' '),
        lacks(decimal(n), ':'),
        lacks(decimal(n), '\n'),
    decreases n,
{
    if n < 10 {
        lemma_digit_char(n);
        assert(decimal(n).drop_last() =~= Seq::<char>::empty());
        assert(digits_value(decimal(n)) == digits_value(Seq::<char>::empty()) * 10 + ((decimal(n).last() as u32)
            - 48) as nat);
    } else {
        lemma_decimal(n / 10);
        lemma_digit_char(n % 10);
        let d = decimal(n / 10);
        let e = decimal(n);
        assert(e == d.push(digit_char(n % 10)));
        assert(e.drop_last() =~= d);
        assert(e.last() == digit_char(n % 10));
        assert(digits_value(e) == digits_value(d) * 10 + ((e.last() as u32) - 48) as nat);
        assert((n / 10) * 10 + n % 10 == n);
        assert forall|i: int| 0 <= i < e.len() implies '0' <= #[trigger] e[i] <= '9' by {
            if i < d.len() {
                assert(e[i] == d[i]);
            }
        }
    }
    let e = decimal(n);
    assert forall|i: int| 0 <= i < e.len() implies !is_ws(#[trigger] e[i]) && e[i] != '/' && e[i] != ' ' && e[i]
        != ':' && e[i] != '\n' by {
        assert('0' <= e[i] <= '9');
    }
}

pub proof fn lemma_parse_decimal(n: nat, max: nat)
    requires
        n <= max,
    ensures
        parse_uint(decimal(n), max) == Some(n),
{
    lemma_decimal(n);
}

/// Trailing text after a prefix that ends in a non-space character.
pub proof fn lemma_trim_end_after(p: Seq<char>, v: Seq<char>)
    requires
        p.len() > 0,
        !is_ws(p.last()),
    ensures
        trim_end(p + v) == p + trim_end(v),
    decreases v.len(),
{
    if v.len() > 0 && is_ws(v.last()) {
        assert((p + v).drop_last() =~= p + v.drop_last());
        assert((p + v).last() == v.last());
        lemma_trim_end_after(p, v.drop_last());
    } else if v.len() == 0 {
        assert(p + v =~= p);
    } else {
        assert((p + v).last() == v.last());
    }
}

/// A line that starts with a non-space character, read with its carriage
/// return, trims to the line without its trailing whitespace.
pub proof fn lemma_trim_line(l: Seq<char>)
    requires
        l.len() > 0,
        !is_ws(l[0]),
    ensures
        trim(l + seq!['\r']) == trim_end(l),
{
    let s = l + seq!['\r'];
    assert(s[0] == l[0]);
    lemma_trim_start_len(s);
    assert(s.drop_last() =~= l);
    assert(is_ws(s.last()));
}

/// `v` does not end in whitespace.
pub open spec fn tail_ok(v: Seq<char>) -> bool {
    v.len() > 0 ==> !is_ws(v.last())
}

/// `v` holds no whitespace at all.
pub open spec fn ws_free(v: Seq<char>) -> bool {
    forall|i: int| 0 <= i < v.len() ==> !is_ws(#[trigger] v[i])
}

pub proof fn lemma_trim_end_id(v: Seq<char>)
    requires
        tail_ok(v),
    ensures
        trim_end(v) == v,
{
}

/// The trimmed text of a line is still free of line feeds.
pub proof fn lemma_trim_end_lacks(v: Seq<char>, c: char)
    requires
        lacks(v, c),
    ensures
        lacks(trim_end(v), c),
        trim_end(v).len() <= v.len(),
        forall|i: int| 0 <= i < trim_end(v).len() ==> trim_end(v)[i] == v[i],
    decreases v.len(),
{
    if v.len() > 0 && is_ws(v.last()) {
        lemma_trim_end_lacks(v.drop_last(), c);
        assert forall|i: int| 0 <= i < trim_end(v).len() implies trim_end(v)[i] == v[i] by {
            assert(v.drop_last()[i] == v[i]);
        }
    }
}

/// Reading `text` line by line from the state `st`.
#[verifier::opaque]
pub open spec fn read_text(text: Seq<char>, st: ParseModel) -> Result<ParseModel, SdpErrModel> {
    parse_lines(split_on(text, '\n'), st)
}

/// Reading a line followed by CRLF and more text: the line, with its
/// carriage return and trimmed, is applied first.
pub proof fn lemma_read_line(l: Seq<char>, rest: Seq<char>, st: ParseModel)
    requires
        lacks(l, '\n'),
    ensures
        read_text(l + crlf() + rest, st) == match line_step(st, trim(l + seq!['\r'])) {
            Ok(s2) => read_text(rest, s2),
            Err(e) => Err::<ParseModel, SdpErrModel>(e),
        },
{
    reveal(read_text);
    reveal_strlit("\r\n");
    let a = l + seq!['\r'];
    assert(l + crlf() + rest =~= a + seq!['\n'] + rest);
    assert forall|i: int| 0 <= i < a.len() implies #[trigger] a[i] != '\n' by {
        if i < l.len() {
            assert(a[i] == l[i]);
        }
    }
    lemma_split_at(a, rest, '\n');
    let lines = seq![a] + split_on(rest, '\n');
    assert(lines[0] == a);
    assert(lines.drop_first() =~= split_on(rest, '\n'));
}

/// The name and value of an attribute `name:val`.
pub proof fn lemma_attr_colon(name: Seq<char>, val: Seq<char>)
    requires
        lacks(name, ':'),
    ensures
        attr_name(name + seq![':'] + val) == name,
        attr_val(name + seq![':'] + val) == Some(val),
{
    let s = name + seq![':'] + val;
    lemma_find_char_at(s, ':', 0, name.len() as int);
    assert(s.subrange(0, name.len() as int) =~= name);
    assert(s.subrange(name.len() + 1int, s.len() as int) =~= val);
}

/// The name of an attribute without a value.
pub proof fn lemma_attr_bare(name: Seq<char>)
    requires
        lacks(name, ':'),
    ensures
        attr_name(name) == name,
        attr_val(name) is None,
{
    lemma_find_char_at(name, ':', 0, name.len() as int);
    assert(name.subrange(0, name.len() as int) =~= name);
}

/// The value of a line `t=value`, as the reader sees it once trimmed.
pub open spec fn line_val(l: Seq<char>) -> Seq<char> {
    trim_end(l.subrange(2, l.len() as int))
}

/// A line `t=...` read with its carriage return trims to its first two
/// characters and its trimmed value.
pub proof fn lemma_line(l: Seq<char>)
    requires
        l.len() >= 2,
        !is_ws(l[0]),
        l[1] == '=',
    ensures
        ({
            let w = trim(l + seq!['\r']);
            &&& w == l.subrange(0, 2) + line_val(l)
            &&& w.len() >= 2
            &&& has_char(w, '=')
            &&& w[0] == l[0]
            &&& w.subrange(2, w.len() as int) == line_val(l)
        }),
{
    let p = l.subrange(0, 2);
    let v = l.subrange(2, l.len() as int);
    assert(l =~= p + v);
    lemma_trim_line(l);
    assert(!is_ws('='));
    lemma_trim_end_after(p, v);
    let w = p + trim_end(v);
    assert(w[1] == '=');
    assert(w.subrange(2, w.len() as int) =~= trim_end(v));
}

/// Reading one line `t=...` and then the rest.
#[verifier::rlimit(40)]
pub proof fn lemma_step(l: Seq<char>, rest: Seq<char>, st: ParseModel)
    requires
        l.len() >= 2,
        !is_ws(l[0]),
        l[1] == '=',
        lacks(l, '\n'),
    ensures
        read_text(l + crlf() + rest, st) == match line_step_val(st, l[0], line_val(l)) {
            Ok(s2) => read_text(rest, s2),
            Err(e) => Err::<ParseModel, SdpErrModel>(e),
        },
{
    lemma_line(l);
    let w = trim(l + seq!['\r']);
    assert(w =~= seq![l[0], '='] + line_val(l));
    lemma_read_line(l, rest, st);
    reveal(line_step_val);
}

/// The shape of a line `t=value` as `line_step` reads it.
pub proof fn lemma_val_shape(t: char, v: Seq<char>)
    ensures
        (seq![t, '='] + v).len() >= 2,
        has_char(seq![t, '='] + v, '='),
        (seq![t, '='] + v)[0] == t,
        (seq![t, '='] + v).subrange(2, (seq![t, '='] + v).len() as int) == v,
{
    let w = seq![t, '='] + v;
    assert(w[1] == '=');
    assert(w.subrange(2, w.len() as int) =~= v);
}

/// `line_step` on a line whose type is `t` and whose value is `value`.
#[verifier::opaque]
pub open spec fn line_step_val(st: ParseModel, t: char, value: Seq<char>) -> Result<ParseModel, SdpErrModel> {
    line_step(st, seq![t, '='] + value)
}

/// The parts of the session the law compares, and where reading stands.
pub open spec fn head_kept(a: ParseModel, b: ParseModel) -> bool {
    &&& b.session.version == a.session.version
    &&& b.session.session_name == a.session.session_name
    &&& b.session.timing == a.session.timing
    &&& b.session.media == a.session.media
    &&& b.media == a.media
}

/// A session-level attribute line changes nothing the law compares.
#[verifier::spinoff_prover]
pub proof fn lemma_session_attr(l: Seq<char>, rest: Seq<char>, st: ParseModel) -> (st2: ParseModel)
    requires
        l.len() >= 2,
        l[0] == 'a',
        l[1] == '=',
        lacks(l, '\n'),
        st.media is None,
    ensures
        read_text(l + crlf() + rest, st) == read_text(rest, st2),
        head_kept(st, st2),
{
    lemma_step(l, rest, st);
    lemma_val_shape('a', line_val(l));
    reveal(line_step_val);
    match line_step_val(st, 'a', line_val(l)) {
        Ok(s2) => s2,
        Err(_) => st,
    }
}

/// An optional session-level attribute line.
pub proof fn lemma_session_opt(prefix: Seq<char>, o: Option<Seq<char>>, rest: Seq<char>, st: ParseModel) -> (st2: ParseModel)
    requires
        prefix.len() >= 2,
        prefix[0] == 'a',
        prefix[1] == '=',
        lacks(prefix, '\n'),
        o matches Some(v) ==> lacks(v, '\n'),
        st.media is None,
    ensures
        read_text(opt_line(prefix, o) + rest, st) == read_text(rest, st2),
        head_kept(st, st2),
{
    match o {
        Some(v) => {
            let l = prefix + v;
            assert(opt_line(prefix, o) + rest =~= l + crlf() + rest);
            assert forall|i: int| 0 <= i < l.len() implies #[trigger] l[i] != '\n' by {
                if i < prefix.len() {
                    assert(l[i] == prefix[i]);
                } else {
                    assert(l[i] == v[i - prefix.len()]);
                }
            }
            lemma_session_attr(l, rest, st)
        },
        None => {
            assert(opt_line(prefix, o) + rest =~= rest);
            st
        },
    }
}

pub proof fn lemma_lacks_cat(a: Seq<char>, b: Seq<char>, c: char)
    requires
        lacks(a, c),
        lacks(b, c),
    ensures
        lacks(a + b, c),
{
    assert forall|i: int| 0 <= i < (a + b).len() implies #[trigger] (a + b)[i] != c by {
        if i < a.len() {
            assert((a + b)[i] == a[i]);
        } else {
            assert((a + b)[i] == b[i - a.len()]);
        }
    }
}

pub proof fn lemma_ws_free_lacks(v: Seq<char>)
    requires
        ws_free(v),
    ensures
        lacks(v, '\n'),
        lacks(v, ' '),
{
    assert forall|i: int| 0 <= i < v.len() implies #[trigger] v[i] != '\n' && v[i] != ' ' by {
        assert(!is_ws(v[i]));
    }
}

pub proof fn lemma_join_lacks(parts: Seq<Seq<char>>, sep: Seq<char>, c: char)
    requires
        lacks(sep, c),
        forall|i: int| 0 <= i < parts.len() ==> lacks(#[trigger] parts[i], c),
    ensures
        lacks(join(parts, sep), c),
    decreases parts.len(),
{
    if parts.len() == 0 {
    } else if parts.len() == 1 {
        assert(lacks(parts[0], c));
    } else {
        let dl = parts.drop_last();
        assert forall|i: int| 0 <= i < dl.len() implies lacks(#[trigger] dl[i], c) by {
            assert(dl[i] == parts[i]);
        }
        lemma_join_lacks(dl, sep, c);
        assert(lacks(parts.last(), c));
        lemma_lacks_cat(join(dl, sep), sep, c);
        lemma_lacks_cat(join(dl, sep) + sep, parts.last(), c);
    }
}

/// The words of three tokens joined by spaces.
pub proof fn lemma_words3(a: Seq<char>, b: Seq<char>, c: Seq<char>)
    requires
        is_token(a),
        is_token(b),
        is_token(c),
    ensures
        words(a + " "@ + b + " "@ + c) == seq![a, b, c],
{
    reveal_strlit(" ");
    assert(a + " "@ + b + " "@ + c =~= a + seq![' '] + (b + seq![' '] + c));
    lemma_words_token_space(a, b + seq![' '] + c);
    lemma_words_token_space(b, c);
    lemma_words_token(c);
    assert(seq![a] + (seq![b] + seq![c]) =~= seq![a, b, c]);
}

/// Tokens hold no line feed and do not end in whitespace.
pub proof fn lemma_token(t: Seq<char>)
    requires
        is_token(t),
    ensures
        lacks(t, '\n'),
        lacks(t, ' '),
        tail_ok(t),
        ws_free(t),
{
    assert(!is_ws(t[t.len() - 1]));
    lemma_ws_free_lacks(t);
}

/// What a printable connection needs: three tokens.
pub open spec fn conn_ok(c: Option<ConnectionModel>) -> bool {
    c matches Some(x) ==> is_token(x.nettype) && is_token(x.addrtype) && is_token(x.connection_address)
}

pub open spec fn opt_lacks_lf(o: Option<Seq<char>>) -> bool {
    o matches Some(v) ==> lacks(v, '\n')
}

/// What the session-level lines need to read back: the name is one line
/// that does not end in whitespace, the other texts hold no line feed, and
/// the connection is three tokens.
pub open spec fn head_printable(s: SessionModel) -> bool {
    &&& lacks(s.session_name, '\n')
    &&& tail_ok(s.session_name)
    &&& lacks(s.origin.username, '\n')
    &&& lacks(s.origin.nettype, '\n')
    &&& lacks(s.origin.addrtype, '\n')
    &&& lacks(s.origin.unicast_address, '\n')
    &&& conn_ok(s.connection)
    &&& opt_lacks_lf(s.group)
    &&& forall|i: int| 0 <= i < s.mids.len() ==> lacks(#[trigger] s.mids[i], '\n')
    &&& opt_lacks_lf(s.ice_ufrag)
    &&& opt_lacks_lf(s.ice_pwd)
    &&& opt_lacks_lf(s.fingerprint)
    &&& opt_lacks_lf(s.setup)
}

/// A connection line, read where it applies to the session.
#[verifier::spinoff_prover]
pub proof fn lemma_session_conn(c: Option<ConnectionModel>, rest: Seq<char>, st: ParseModel) -> (st2: ParseModel)
    requires
        conn_ok(c),
        st.media is None,
    ensures
        read_text(conn_line(c) + rest, st) == read_text(rest, st2),
        head_kept(st, st2),
{
    match c {
        Some(x) => {
            reveal_strlit("c=");
            reveal_strlit(" ");
            let v = x.nettype + " "@ + x.addrtype + " "@ + x.connection_address;
            let l = "c="@ + v;
            assert(conn_line(c) + rest =~= l + crlf() + rest);
            lemma_token(x.nettype);
            lemma_token(x.addrtype);
            lemma_token(x.connection_address);
            lemma_lacks_cat(x.nettype, " "@, '\n');
            lemma_lacks_cat(x.nettype + " "@, x.addrtype, '\n');
            lemma_lacks_cat(x.nettype + " "@ + x.addrtype, " "@, '\n');
            lemma_lacks_cat(x.nettype + " "@ + x.addrtype + " "@, x.connection_address, '\n');
            lemma_lacks_cat("c="@, v, '\n');
            assert(l.subrange(2, l.len() as int) =~= v);
            assert(v.last() == x.connection_address.last());
            lemma_trim_end_id(v);
            assert(l[0] == 'c' && l[1] == '=');
            lemma_step(l, rest, st);
            assert(line_val(l) == v);
            lemma_words3(x.nettype, x.addrtype, x.connection_address);
            assert(conn_model(v) == Some(x));
            lemma_val_shape('c', v);
            reveal(line_step_val);
            line_step_val(st, 'c', v)->Ok_0
        },
        None => {
            assert(conn_line(c) + rest =~= rest);
            st
        },
    }
}

/// A line made of a two-character prefix `t=` and a value.
pub proof fn lemma_line_ready(prefix: Seq<char>, v: Seq<char>)
    requires
        prefix.len() == 2,
        !is_ws(prefix[0]),
        prefix[1] == '=',
        lacks(v, '\n'),
    ensures
        ({
            let l = prefix + v;
            &&& l.len() >= 2
            &&& l[0] == prefix[0]
            &&& l[1] == '='
            &&& lacks(l, '\n')
            &&& line_val(l) == trim_end(v)
        }),
{
    let l = prefix + v;
    assert(prefix[0] != '\n');
    assert(lacks(prefix, '\n'));
    lemma_lacks_cat(prefix, v, '\n');
    assert(l.subrange(2, l.len() as int) =~= v);
}

/// The words of two tokens joined by a space.
pub proof fn lemma_words2(a: Seq<char>, b: Seq<char>)
    requires
        is_token(a),
        is_token(b),
    ensures
        words(a + " "@ + b) == seq![a, b],
{
    reveal_strlit(" ");
    assert(a + " "@ + b =~= a + seq![' '] + b);
    lemma_words_token_space(a, b);
    lemma_words_token(b);
    assert(seq![a] + seq![b] =~= seq![a, b]);
}

/// The group line of a session.
pub open spec fn group_text(s: SessionModel) -> Seq<char> {
    match s.group {
        Some(g) => "a=group:"@ + g + " "@ + join(s.mids, " "@) + crlf(),
        None => Seq::empty(),
    }
}

pub proof fn lemma_session_group(s: SessionModel, rest: Seq<char>, st: ParseModel) -> (st2: ParseModel)
    requires
        head_printable(s),
        st.media is None,
    ensures
        read_text(group_text(s) + rest, st) == read_text(rest, st2),
        head_kept(st, st2),
{
    match s.group {
        Some(g) => {
            reveal_strlit("a=group:");
            reveal_strlit(" ");
            lemma_join_lacks(s.mids, " "@, '\n');
            let l = "a=group:"@ + g + " "@ + join(s.mids, " "@);
            lemma_lacks_cat("a=group:"@, g, '\n');
            lemma_lacks_cat("a=group:"@ + g, " "@, '\n');
            lemma_lacks_cat("a=group:"@ + g + " "@, join(s.mids, " "@), '\n');
            assert(group_text(s) + rest =~= l + crlf() + rest);
            lemma_session_attr(l, rest, st)
        },
        None => {
            assert(group_text(s) + rest =~= rest);
            st
        },
    }
}

/// The version line.
#[verifier::spinoff_prover]
pub proof fn lemma_v_line(version: u32, rest: Seq<char>, st: ParseModel) -> (st2: ParseModel)
    ensures
        read_text("v="@ + decimal(version as nat) + crlf() + rest, st) == read_text(rest, st2),
        st2 == (ParseModel { session: SessionModel { version, ..st.session }, ..st }),
{
    reveal_strlit("v=");
    let dv = decimal(version as nat);
    let l = "v="@ + dv;
    lemma_decimal(version as nat);
    lemma_token(dv);
    lemma_line_ready("v="@, dv);
    lemma_trim_end_id(dv);
    lemma_step(l, rest, st);
    lemma_val_shape('v', dv);
    lemma_parse_decimal(version as nat, 0xFFFF_FFFF);
    reveal(line_step_val);
    line_step_val(st, 'v', dv)->Ok_0
}

/// The origin line changes nothing the law compares.
#[verifier::spinoff_prover]
pub proof fn lemma_o_line(v: Seq<char>, rest: Seq<char>, st: ParseModel) -> (st2: ParseModel)
    requires
        lacks(v, '\n'),
    ensures
        read_text("o="@ + v + crlf() + rest, st) == read_text(rest, st2),
        head_kept(st, st2),
{
    reveal_strlit("o=");
    let l = "o="@ + v;
    lemma_line_ready("o="@, v);
    lemma_step(l, rest, st);
    lemma_val_shape('o', line_val(l));
    reveal(line_step_val);
    line_step_val(st, 'o', line_val(l))->Ok_0
}

/// The name line.
#[verifier::spinoff_prover]
pub proof fn lemma_s_line(name: Seq<char>, rest: Seq<char>, st: ParseModel) -> (st2: ParseModel)
    requires
        lacks(name, '\n'),
        tail_ok(name),
    ensures
        read_text("s="@ + name + crlf() + rest, st) == read_text(rest, st2),
        st2 == (ParseModel { session: SessionModel { session_name: name, ..st.session }, ..st }),
{
    reveal_strlit("s=");
    let l = "s="@ + name;
    lemma_line_ready("s="@, name);
    lemma_trim_end_id(name);
    lemma_step(l, rest, st);
    lemma_val_shape('s', name);
    reveal(line_step_val);
    line_step_val(st, 's', name)->Ok_0
}

/// The timing line.
#[verifier::spinoff_prover]
pub proof fn lemma_t_line(start: u64, stop: u64, rest: Seq<char>, st: ParseModel) -> (st2: ParseModel)
    ensures
        read_text("t="@ + decimal(start as nat) + " "@ + decimal(stop as nat) + crlf() + rest, st) == read_text(
            rest,
            st2,
        ),
        st2 == (ParseModel {
            session: SessionModel { timing: crate::pc::sdp::SdpTiming { start, stop }, ..st.session },
            ..st
        }),
{
    reveal_strlit("t=");
    reveal_strlit(" ");
    let a = decimal(start as nat);
    let b = decimal(stop as nat);
    let v = a + " "@ + b;
    let l = "t="@ + v;
    assert("t="@ + a + " "@ + b =~= l);
    lemma_decimal(start as nat);
    lemma_decimal(stop as nat);
    lemma_token(a);
    lemma_token(b);
    lemma_lacks_cat(a, " "@, '\n');
    lemma_lacks_cat(a + " "@, b, '\n');
    assert(v.last() == b.last());
    lemma_trim_end_id(v);
    lemma_line_ready("t="@, v);
    lemma_step(l, rest, st);
    lemma_val_shape('t', v);
    lemma_words2(a, b);
    lemma_parse_decimal(start as nat, 0xFFFF_FFFF_FFFF_FFFF);
    lemma_parse_decimal(stop as nat, 0xFFFF_FFFF_FFFF_FFFF);
    reveal(line_step_val);
    line_step_val(st, 't', v)->Ok_0
}

/// The value of the origin line.
pub open spec fn origin_value(s: SessionModel) -> Seq<char> {
    s.origin.username + " "@ + decimal(s.origin.session_id as nat) + " "@ + decimal(s.origin.session_version as nat)
        + " "@ + s.origin.nettype + " "@ + s.origin.addrtype + " "@ + s.origin.unicast_address
}

pub proof fn lemma_origin_lacks(s: SessionModel)
    requires
        head_printable(s),
    ensures
        lacks(origin_value(s), '\n'),
{
    reveal_strlit(" ");
    lemma_decimal(s.origin.session_id as nat);
    lemma_decimal(s.origin.session_version as nat);
    let o1 = s.origin.username + " "@ + decimal(s.origin.session_id as nat);
    lemma_lacks_cat(s.origin.username, " "@, '\n');
    lemma_lacks_cat(s.origin.username + " "@, decimal(s.origin.session_id as nat), '\n');
    lemma_lacks_cat(o1, " "@, '\n');
    lemma_lacks_cat(o1 + " "@, decimal(s.origin.session_version as nat), '\n');
    let o2 = o1 + " "@ + decimal(s.origin.session_version as nat);
    lemma_lacks_cat(o2, " "@, '\n');
    lemma_lacks_cat(o2 + " "@, s.origin.nettype, '\n');
    lemma_lacks_cat(o2 + " "@ + s.origin.nettype, " "@, '\n');
    lemma_lacks_cat(o2 + " "@ + s.origin.nettype + " "@, s.origin.addrtype, '\n');
    lemma_lacks_cat(o2 + " "@ + s.origin.nettype + " "@ + s.origin.addrtype, " "@, '\n');
    lemma_lacks_cat(o2 + " "@ + s.origin.nettype + " "@ + s.origin.addrtype + " "@, s.origin.unicast_address, '\n');
}

/// The version, origin, name and timing lines.
#[verifier::spinoff_prover]
#[verifier::rlimit(60)]
pub proof fn lemma_head_lines(s: SessionModel, rest: Seq<char>, st: ParseModel) -> (st2: ParseModel)
    requires
        head_printable(s),
        st.media is None,
    ensures
        read_text(session_lines(s) + rest, st) == read_text(rest, st2),
        st2.media is None,
        st2.session.media == st.session.media,
        st2.session.version == s.version,
        st2.session.session_name == s.session_name,
        st2.session.timing == s.timing,
{
    let ta = decimal(s.timing.start as nat);
    let tb = decimal(s.timing.stop as nat);
    let r4 = "t="@ + ta + " "@ + tb + crlf() + rest;
    let r3 = "s="@ + s.session_name + crlf() + r4;
    let r2 = "o="@ + origin_value(s) + crlf() + r3;
    assert(session_lines(s) + rest =~= "v="@ + decimal(s.version as nat) + crlf() + r2);
    let st1 = lemma_v_line(s.version, r2, st);
    lemma_origin_lacks(s);
    let st2a = lemma_o_line(origin_value(s), r3, st1);
    let st3 = lemma_s_line(s.session_name, r4, st2a);
    lemma_t_line(s.timing.start, s.timing.stop, rest, st3)
}

pub proof fn lemma_assoc6(
    a: Seq<char>,
    b: Seq<char>,
    c: Seq<char>,
    d: Seq<char>,
    e: Seq<char>,
    f: Seq<char>,
    r: Seq<char>,
)
    ensures
        a + b + c + d + e + f + r == a + (b + (c + (d + (e + (f + r))))),
{
    assert(a + b + c + d + e + f + r =~= a + (b + (c + (d + (e + (f + r))))));
}

/// The connection and attribute lines of the session.
pub proof fn lemma_head_attrs(s: SessionModel, rest: Seq<char>, st: ParseModel) -> (st2: ParseModel)
    requires
        head_printable(s),
        st.media is None,
    ensures
        read_text(session_attrs(s) + rest, st) == read_text(rest, st2),
        head_kept(st, st2),
{
    reveal_strlit("a=ice-ufrag:");
    reveal_strlit("a=ice-pwd:");
    reveal_strlit("a=fingerprint:");
    reveal_strlit("a=setup:");
    let g = group_text(s);
    let o_u = opt_line("a=ice-ufrag:"@, s.ice_ufrag);
    let o_p = opt_line("a=ice-pwd:"@, s.ice_pwd);
    let o_f = opt_line("a=fingerprint:"@, s.fingerprint);
    let o_s = opt_line("a=setup:"@, s.setup);
    assert("a=ice-ufrag:"@[0] == 'a' && "a=ice-ufrag:"@[1] == '=' && lacks("a=ice-ufrag:"@, '\n'));
    assert("a=ice-pwd:"@[0] == 'a' && "a=ice-pwd:"@[1] == '=' && lacks("a=ice-pwd:"@, '\n'));
    assert("a=fingerprint:"@[0] == 'a' && "a=fingerprint:"@[1] == '=' && lacks("a=fingerprint:"@, '\n'));
    assert("a=setup:"@[0] == 'a' && "a=setup:"@[1] == '=' && lacks("a=setup:"@, '\n'));
    assert(session_attrs(s) == conn_line(s.connection) + g + o_u + o_p + o_f + o_s);
    lemma_assoc6(conn_line(s.connection), g, o_u, o_p, o_f, o_s, rest);
    let t1 = lemma_session_conn(s.connection, g + (o_u + (o_p + (o_f + (o_s + rest)))), st);
    let t2 = lemma_session_group(s, o_u + (o_p + (o_f + (o_s + rest))), t1);
    let t3 = lemma_session_opt("a=ice-ufrag:"@, s.ice_ufrag, o_p + (o_f + (o_s + rest)), t2);
    let t4 = lemma_session_opt("a=ice-pwd:"@, s.ice_pwd, o_f + (o_s + rest), t3);
    let t5 = lemma_session_opt("a=fingerprint:"@, s.fingerprint, o_s + rest, t4);
    lemma_session_opt("a=setup:"@, s.setup, rest, t5)
}

/// The session-level lines read back the version, the name and the timing,
/// and leave the media alone.
pub proof fn lemma_head(s: SessionModel, rest: Seq<char>, st: ParseModel) -> (st2: ParseModel)
    requires
        head_printable(s),
        st.media is None,
    ensures
        read_text(session_head(s) + rest, st) == read_text(rest, st2),
        st2.media is None,
        st2.session.media == st.session.media,
        st2.session.version == s.version,
        st2.session.session_name == s.session_name,
        st2.session.timing == s.timing,
{
    assert(session_head(s) + rest =~= session_lines(s) + (session_attrs(s) + rest));
    let st1 = lemma_head_lines(s, session_attrs(s) + rest, st);
    lemma_head_attrs(s, rest, st1)
}

/// The media sections read so far, the one being read included.
pub open spec fn pushed(st: ParseModel) -> Seq<MediaModel> {
    match st.media {
        Some(m) => st.session.media.push(m),
        None => st.session.media,
    }
}

/// A media section just opened by the media line of `m`.
pub open spec fn opened_as(a: MediaModel, m: MediaModel) -> bool {
    &&& a.media_type == m.media_type
    &&& a.port == m.port
    &&& a.port_count == m.port_count
    &&& a.proto == m.proto
    &&& a.formats == m.formats
    &&& a.mid is None
    &&& a.direction == SdpDirection::SendRecv
    &&& a.rtpmaps == Map::<u8, RtpMapModel>::empty()
    &&& a.fmtps == Seq::<FmtpModel>::empty()
    &&& a.candidates == Seq::<Seq<char>>::empty()
    &&& !a.rtcp_mux
}

/// The session-level fields the law compares stay as they were.
pub open spec fn session_kept(a: ParseModel, b: ParseModel) -> bool {
    &&& b.session.version == a.session.version
    &&& b.session.session_name == a.session.session_name
    &&& b.session.timing == a.session.timing
}

/// What a media line needs to read back: tokens for the type and the
/// protocol, and at least one format, each a token.
pub open spec fn mline_ok(m: MediaModel) -> bool {
    &&& is_token(m.media_type)
    &&& is_token(m.proto)
    &&& m.formats.len() > 0
    &&& forall|i: int| 0 <= i < m.formats.len() ==> is_token(#[trigger] m.formats[i])
}

/// The value of the media line of `m`.
pub open spec fn mline_value(m: MediaModel) -> Seq<char> {
    m.media_type + " "@ + port_text(m) + " "@ + m.proto + " "@ + join(m.formats, " "@)
}

/// The port field reads back as the port and its count.
pub proof fn lemma_port(m: MediaModel)
    ensures
        is_token(port_text(m)),
        has_char(port_text(m), '/') == m.port_count is Some,
        ({
            let pt = port_text(m);
            let pp = split_on(pt, '/');
            &&& (if has_char(pt, '/') { parse_or(pp[0], 0xFFFF, 0) } else { parse_or(pt, 0xFFFF, 0) }) == m.port
            &&& (if has_char(pt, '/') {
                Some((if pp.len() > 1 { parse_or(pp[1], 0xFFFF, 1) } else { 1 }) as u16)
            } else {
                None::<u16>
            }) == m.port_count
        }),
{
    reveal_strlit("/");
    let dp = decimal(m.port as nat);
    lemma_decimal(m.port as nat);
    lemma_parse_decimal(m.port as nat, 0xFFFF);
    match m.port_count {
        Some(c) => {
            let dc = decimal(c as nat);
            lemma_decimal(c as nat);
            lemma_parse_decimal(c as nat, 0xFFFF);
            let pt = dp + "/"@ + dc;
            assert(pt =~= dp + seq!['/'] + dc);
            assert(pt[dp.len() as int] == '/');
            assert forall|i: int| 0 <= i < pt.len() implies !is_ws(#[trigger] pt[i]) by {
                if i < dp.len() {
                    assert(pt[i] == dp[i]);
                } else if i > dp.len() {
                    assert(pt[i] == dc[i - dp.len() - 1]);
                }
            }
            lemma_split_at(dp, dc, '/');
            lemma_split_none(dc, '/');
            assert(split_on(pt, '/') =~= seq![dp, dc]);
        },
        None => {
            assert(!has_char(dp, '/'));
        },
    }
}

/// The words of a media line are its type, port field, protocol and
/// formats.
pub proof fn lemma_mline_words(m: MediaModel)
    requires
        mline_ok(m),
    ensures
        words(mline_value(m)) == seq![m.media_type, port_text(m), m.proto] + m.formats,
        tail_ok(mline_value(m)),
        lacks(mline_value(m), '\n'),
{
    reveal_strlit(" ");
    lemma_port(m);
    let j = join(m.formats, " "@);
    let pt = port_text(m);
    assert(mline_value(m) =~= m.media_type + seq![' '] + (pt + seq![' '] + (m.proto + seq![' '] + j)));
    lemma_words_join(m.formats);
    lemma_words_token_space(m.proto, j);
    lemma_words_token_space(pt, m.proto + seq![' '] + j);
    lemma_words_token_space(m.media_type, pt + seq![' '] + (m.proto + seq![' '] + j));
    assert(seq![m.media_type] + (seq![pt] + (seq![m.proto] + m.formats)) =~= seq![m.media_type, pt, m.proto]
        + m.formats);
    // the value ends with the last format and holds no line feed
    assert forall|i: int| 0 <= i < m.formats.len() implies lacks(#[trigger] m.formats[i], '\n') by {
        lemma_token(m.formats[i]);
    }
    lemma_join_lacks(m.formats, " "@, '\n');
    lemma_token(m.media_type);
    lemma_token(m.proto);
    lemma_token(pt);
    lemma_lacks_cat(m.media_type, " "@, '\n');
    lemma_lacks_cat(m.media_type + " "@, pt, '\n');
    lemma_lacks_cat(m.media_type + " "@ + pt, " "@, '\n');
    lemma_lacks_cat(m.media_type + " "@ + pt + " "@, m.proto, '\n');
    lemma_lacks_cat(m.media_type + " "@ + pt + " "@ + m.proto, " "@, '\n');
    lemma_lacks_cat(m.media_type + " "@ + pt + " "@ + m.proto + " "@, j, '\n');
    lemma_join_last(m.formats, " "@);
    lemma_token(m.formats.last());
}

/// `join` ends with its last part.
pub proof fn lemma_join_last(parts: Seq<Seq<char>>, sep: Seq<char>)
    requires
        parts.len() > 0,
        parts.last().len() > 0,
    ensures
        join(parts, sep).len() > 0,
        join(parts, sep).last() == parts.last().last(),
{
}

/// The media line opens a new section and files the one before.
#[verifier::spinoff_prover]
pub proof fn lemma_m_line(m: MediaModel, rest: Seq<char>, st: ParseModel) -> (st2: ParseModel)
    requires
        mline_ok(m),
    ensures
        read_text("m="@ + mline_value(m) + crlf() + rest, st) == read_text(rest, st2),
        st2.media is Some,
        opened_as(st2.media->0, m),
        st2.session.media == pushed(st),
        session_kept(st, st2),
{
    reveal_strlit("m=");
    let v = mline_value(m);
    let l = "m="@ + v;
    lemma_mline_words(m);
    lemma_line_ready("m="@, v);
    lemma_trim_end_id(v);
    lemma_step(l, rest, st);
    lemma_val_shape('m', v);
    lemma_port(m);
    let p = words(v);
    assert(p.skip(3) =~= m.formats);
    assert(p[1] == port_text(m));
    assert(media_model(v) is Some);
    reveal(line_step_val);
    line_step_val(st, 'm', v)->Ok_0
}

/// The parts of a media section the law compares.
pub open spec fn media_same(a: MediaModel, b: MediaModel) -> bool {
    &&& a.media_type == b.media_type
    &&& a.port == b.port
    &&& a.port_count == b.port_count
    &&& a.proto == b.proto
    &&& a.formats == b.formats
    &&& a.mid == b.mid
    &&& a.direction == b.direction
    &&& a.rtpmaps == b.rtpmaps
    &&& a.fmtps == b.fmtps
    &&& a.candidates == b.candidates
    &&& a.rtcp_mux == b.rtcp_mux
}

/// Reading moved on inside a media section without changing anything the
/// law compares.
pub open spec fn kept(a: ParseModel, b: ParseModel) -> bool {
    &&& a.media is Some
    &&& b.media is Some
    &&& media_same(a.media->0, b.media->0)
    &&& b.session.media == a.session.media
    &&& session_kept(a, b)
}

/// An attribute line inside a media section.
#[verifier::spinoff_prover]
pub proof fn lemma_a_line(u: Seq<char>, rest: Seq<char>, st: ParseModel) -> (st2: ParseModel)
    requires
        lacks(u, '\n'),
        st.media is Some,
    ensures
        read_text("a="@ + u + crlf() + rest, st) == read_text(rest, st2),
        st2 == media_attr_step(st, attr_name(trim_end(u)), attr_val(trim_end(u))),
{
    reveal_strlit("a=");
    let l = "a="@ + u;
    lemma_line_ready("a="@, u);
    lemma_step(l, rest, st);
    lemma_val_shape('a', trim_end(u));
    reveal(line_step_val);
    line_step_val(st, 'a', trim_end(u))->Ok_0
}

/// `name:v`, trimmed, when `v` does not end in whitespace.
pub proof fn lemma_named(name: Seq<char>, v: Seq<char>)
    requires
        name.len() > 0,
        !is_ws(name.last()),
        lacks(name, ':'),
        tail_ok(v),
    ensures
        trim_end(name + seq![':'] + v) == name + seq![':'] + v,
        attr_name(name + seq![':'] + v) == name,
        attr_val(name + seq![':'] + v) == Some(v),
{
    assert(!is_ws(':'));
    lemma_trim_end_id(v);
    lemma_trim_end_after(name + seq![':'], v);
    lemma_attr_colon(name, v);
}

/// The literal attribute names the reader tells apart.
pub proof fn lemma_names()
    ensures
        "mid"@ == seq!['m', 'i', 'd'],
        "sendrecv"@ == seq!['s', 'e', 'n', 'd', 'r', 'e', 'c', 'v'],
        "sendonly"@ == seq!['s', 'e', 'n', 'd', 'o', 'n', 'l', 'y'],
        "recvonly"@ == seq!['r', 'e', 'c', 'v', 'o', 'n', 'l', 'y'],
        "inactive"@ == seq!['i', 'n', 'a', 'c', 't', 'i', 'v', 'e'],
        "rtpmap"@ == seq!['r', 't', 'p', 'm', 'a', 'p'],
        "fmtp"@ == seq!['f', 'm', 't', 'p'],
        "ssrc"@ == seq!['s', 's', 'r', 'c'],
        "ice-ufrag"@ == seq!['i', 'c', 'e', '-', 'u', 'f', 'r', 'a', 'g'],
        "ice-pwd"@ == seq!['i', 'c', 'e', '-', 'p', 'w', 'd'],
        "candidate"@ == seq!['c', 'a', 'n', 'd', 'i', 'd', 'a', 't', 'e'],
        "rtcp-mux"@ == seq!['r', 't', 'c', 'p', '-', 'm', 'u', 'x'],
        "bundle-only"@ == seq!['b', 'u', 'n', 'd', 'l', 'e', '-', 'o', 'n', 'l', 'y'],
{
    reveal_strlit("mid");
    reveal_strlit("sendrecv");
    reveal_strlit("sendonly");
    reveal_strlit("recvonly");
    reveal_strlit("inactive");
    reveal_strlit("rtpmap");
    reveal_strlit("fmtp");
    reveal_strlit("ssrc");
    reveal_strlit("ice-ufrag");
    reveal_strlit("ice-pwd");
    reveal_strlit("candidate");
    reveal_strlit("rtcp-mux");
    reveal_strlit("bundle-only");
}

/// The mid line of a media section.
pub proof fn lemma_mid_line(mid: Option<Seq<char>>, rest: Seq<char>, st: ParseModel) -> (st2: ParseModel)
    requires
        st.media is Some,
        mid matches Some(v) ==> lacks(v, '\n') && tail_ok(v),
    ensures
        read_text(opt_line("a=mid:"@, mid) + rest, st) == read_text(rest, st2),
        st2.media == Some(MediaModel { mid: if mid is Some { mid } else { st.media->0.mid }, ..st.media->0 }),
        st2.session.media == st.session.media,
        session_kept(st, st2),
{
    match mid {
        Some(v) => {
            reveal_strlit("a=mid:");
            lemma_names();
            let u = "mid"@ + seq![':'] + v;
            assert(opt_line("a=mid:"@, mid) + rest =~= "a="@ + u + crlf() + rest) by {
                reveal_strlit("a=");
            }
            assert(lacks("mid"@ + seq![':'], '\n'));
            lemma_lacks_cat("mid"@ + seq![':'], v, '\n');
            assert(lacks("mid"@, ':'));
            lemma_named("mid"@, v);
            lemma_a_line(u, rest, st)
        },
        None => {
            assert(opt_line("a=mid:"@, mid) + rest =~= rest);
            st
        },
    }
}

/// The direction line of a media section.
pub proof fn lemma_dir_line(d: SdpDirection, rest: Seq<char>, st: ParseModel) -> (st2: ParseModel)
    requires
        st.media is Some,
    ensures
        read_text("a="@ + direction_text(d) + crlf() + rest, st) == read_text(rest, st2),
        st2.media == Some(MediaModel { direction: d, ..st.media->0 }),
        st2.session == st.session,
{
    lemma_names();
    let u = direction_text(d);
    assert(lacks(u, '\n') && lacks(u, ':') && tail_ok(u));
    lemma_trim_end_id(u);
    lemma_attr_bare(u);
    lemma_a_line(u, rest, st)
}

/// What an rtpmap entry needs to read back: its name and parameters hold
/// neither whitespace nor `/`.
pub open spec fn rtpmap_entry_ok(r: RtpMapModel) -> bool {
    &&& ws_free(r.encoding_name)
    &&& lacks(r.encoding_name, '/')
    &&& (r.encoding_params matches Some(p) ==> ws_free(p) && lacks(p, '/'))
}

/// The entry an rtpmap line for payload type `pt` reads back as.
pub open spec fn relabel(pt: u8, r: RtpMapModel) -> RtpMapModel {
    RtpMapModel { payload_type: pt, ..r }
}

/// The second field of an rtpmap line: name, clock rate and parameters.
pub open spec fn rtpmap_enc(r: RtpMapModel) -> Seq<char> {
    r.encoding_name + "/"@ + decimal(r.clock_rate as nat) + match r.encoding_params {
        Some(p) => "/"@ + p,
        None => Seq::empty(),
    }
}

#[verifier::spinoff_prover]
pub proof fn lemma_rtpmap_value(pt: u8, r: RtpMapModel)
    requires
        rtpmap_entry_ok(r),
    ensures
        ({
            let v = decimal(pt as nat) + " "@ + rtpmap_enc(r);
            &&& rtpmap_model(v) == Some(relabel(pt, r))
            &&& tail_ok(v)
            &&& lacks(v, '\n')
            &&& rtpmap_line(pt, r) == "a="@ + ("rtpmap"@ + seq![':'] + v) + crlf()
        }),
{
    reveal_strlit("/");
    reveal_strlit(" ");
    reveal_strlit("a=rtpmap:");
    reveal_strlit("a=");
    lemma_names();
    let dp = decimal(pt as nat);
    let dc = decimal(r.clock_rate as nat);
    lemma_decimal(pt as nat);
    lemma_decimal(r.clock_rate as nat);
    lemma_parse_decimal(pt as nat, 0xFF);
    lemma_parse_decimal(r.clock_rate as nat, 0xFFFF_FFFF);
    let enc = rtpmap_enc(r);
    let v = dp + " "@ + enc;
    // the second field is one token that splits at its slashes
    match r.encoding_params {
        Some(p) => {
            assert(enc =~= r.encoding_name + seq!['/'] + (dc + seq!['/'] + p));
            lemma_split_at(dc, p, '/');
            lemma_split_none(p, '/');
            lemma_split_at(r.encoding_name, dc + seq!['/'] + p, '/');
            assert(split_on(enc, '/') =~= seq![r.encoding_name, dc, p]);
            assert(enc.last() == '/' || enc.last() == p.last());
        },
        None => {
            assert(enc =~= r.encoding_name + seq!['/'] + dc);
            lemma_split_none(dc, '/');
            lemma_split_at(r.encoding_name, dc, '/');
            assert(split_on(enc, '/') =~= seq![r.encoding_name, dc]);
            assert(enc.last() == dc.last());
        },
    }
    assert forall|i: int| 0 <= i < enc.len() implies !is_ws(#[trigger] enc[i]) by {
        let n = r.encoding_name.len();
        if i < n {
            assert(enc[i] == r.encoding_name[i]);
        } else if i == n {
            assert(enc[i] == '/');
        } else if i < n + 1 + dc.len() {
            assert(enc[i] == dc[i - n - 1]);
        } else {
            let p = r.encoding_params->0;
            if i == n + 1 + dc.len() {
                assert(enc[i] == '/');
            } else {
                assert(enc[i] == p[i - n - 2 - dc.len()]);
            }
        }
    }
    assert(enc.len() > 0);
    lemma_words2(dp, enc);
    assert(v =~= dp + " "@ + enc);
    assert(v.last() == enc.last());
    lemma_token(enc);
    lemma_token(dp);
    lemma_lacks_cat(dp, " "@, '\n');
    lemma_lacks_cat(dp + " "@, enc, '\n');
    assert(rtpmap_line(pt, r) =~= "a="@ + ("rtpmap"@ + seq![':'] + v) + crlf());
}

/// An rtpmap line inside a media section stores its entry.
pub proof fn lemma_rtpmap_line(pt: u8, r: RtpMapModel, rest: Seq<char>, st: ParseModel) -> (st2: ParseModel)
    requires
        st.media is Some,
        rtpmap_entry_ok(r),
    ensures
        read_text(rtpmap_line(pt, r) + rest, st) == read_text(rest, st2),
        st2.media == Some(MediaModel { rtpmaps: st.media->0.rtpmaps.insert(pt, relabel(pt, r)), ..st.media->0 }),
        st2.session == st.session,
{
    lemma_rtpmap_value(pt, r);
    lemma_names();
    let v = decimal(pt as nat) + " "@ + rtpmap_enc(r);
    let u = "rtpmap"@ + seq![':'] + v;
    assert(rtpmap_line(pt, r) + rest =~= "a="@ + u + crlf() + rest);
    assert(lacks("rtpmap"@ + seq![':'], '\n'));
    lemma_lacks_cat("rtpmap"@ + seq![':'], v, '\n');
    assert(lacks("rtpmap"@, ':'));
    lemma_named("rtpmap"@, v);
    lemma_a_line(u, rest, st)
}

/// The map after storing each entry of `es` in order.
pub open spec fn ins_all(mp: Map<u8, RtpMapModel>, es: Seq<(u8, RtpMapModel)>) -> Map<u8, RtpMapModel>
    decreases es.len(),
{
    if es.len() == 0 {
        mp
    } else {
        ins_all(mp, es.drop_last()).insert(es.last().0, relabel(es.last().0, es.last().1))
    }
}

/// The rtpmap lines of a media section.
pub proof fn lemma_rtpmap_lines(es: Seq<(u8, RtpMapModel)>, rest: Seq<char>, st: ParseModel) -> (st2: ParseModel)
    requires
        st.media is Some,
        forall|i: int| 0 <= i < es.len() ==> rtpmap_entry_ok(#[trigger] es[i].1),
    ensures
        read_text(rtpmap_lines(es) + rest, st) == read_text(rest, st2),
        st2.media == Some(MediaModel { rtpmaps: ins_all(st.media->0.rtpmaps, es), ..st.media->0 }),
        st2.session == st.session,
    decreases es.len(),
{
    if es.len() == 0 {
        assert(rtpmap_lines(es) + rest =~= rest);
        st
    } else {
        let dl = es.drop_last();
        let e = es.last();
        assert forall|i: int| 0 <= i < dl.len() implies rtpmap_entry_ok(#[trigger] dl[i].1) by {
            assert(dl[i] == es[i]);
        }
        assert(rtpmap_entry_ok(es[es.len() - 1].1));
        assert(rtpmap_lines(es) + rest =~= rtpmap_lines(dl) + (rtpmap_line(e.0, e.1) + rest));
        let st1 = lemma_rtpmap_lines(dl, rtpmap_line(e.0, e.1) + rest, st);
        lemma_rtpmap_line(e.0, e.1, rest, st1)
    }
}

/// The entries below `n` are entries of the map, and storing them into an
/// empty map gives back the map's entries below `n` when each entry is
/// filed under its own payload type.
pub proof fn lemma_entries(m: Map<u8, RtpMapModel>, n: nat)
    requires
        n <= 256,
        forall|k: u8| #[trigger] m.contains_key(k) ==> m[k].payload_type == k,
    ensures
        forall|i: int|
            0 <= i < rtpmaps_below(m, n).len() ==> m.contains_key(#[trigger] rtpmaps_below(m, n)[i].0)
                && rtpmaps_below(m, n)[i].1 == m[rtpmaps_below(m, n)[i].0],
        forall|k: u8|
            #[trigger] ins_all(Map::empty(), rtpmaps_below(m, n)).contains_key(k) <==> (m.contains_key(k) && k < n),
        forall|k: u8|
            #[trigger] ins_all(Map::empty(), rtpmaps_below(m, n)).contains_key(k) ==> ins_all(
                Map::empty(),
                rtpmaps_below(m, n),
            )[k] == m[k],
    decreases n,
{
    if n > 0 {
        lemma_entries(m, (n - 1) as nat);
        let k = (n - 1) as u8;
        assert(k as nat == n - 1);
        let prev = rtpmaps_below(m, (n - 1) as nat);
        let ip = ins_all(Map::empty(), prev);
        if m.contains_key(k) {
            let cur = prev.push((k, m[k]));
            assert(rtpmaps_below(m, n) == cur);
            assert(cur.drop_last() =~= prev);
            assert(relabel(k, m[k]) =~= m[k]);
            let ic = ins_all(Map::empty(), cur);
            assert(ic == ip.insert(k, m[k]));
            assert forall|i: int| 0 <= i < cur.len() implies m.contains_key(#[trigger] cur[i].0) && cur[i].1
                == m[cur[i].0] by {
                if i < prev.len() {
                    assert(cur[i] == prev[i]);
                }
            }
            assert forall|k2: u8| #[trigger] ic.contains_key(k2) <==> (m.contains_key(k2) && k2 < n) by {
                if k2 == k {
                } else {
                    assert(ic.contains_key(k2) == ip.contains_key(k2));
                }
            }
            assert forall|k2: u8| #[trigger] ic.contains_key(k2) implies ic[k2] == m[k2] by {
                if k2 != k {
                    assert(ip.contains_key(k2));
                }
            }
        } else {
            assert(rtpmaps_below(m, n) == prev);
            assert forall|k2: u8| #[trigger] ip.contains_key(k2) <==> (m.contains_key(k2) && k2 < n) by {
                if k2 == k {
                }
            }
        }
    }
}

pub proof fn lemma_entries_all(m: Map<u8, RtpMapModel>)
    requires
        forall|k: u8| #[trigger] m.contains_key(k) ==> m[k].payload_type == k,
    ensures
        ins_all(Map::empty(), rtpmap_entries(m)) == m,
        forall|i: int|
            0 <= i < rtpmap_entries(m).len() ==> m.contains_key(#[trigger] rtpmap_entries(m)[i].0)
                && rtpmap_entries(m)[i].1 == m[rtpmap_entries(m)[i].0],
{
    lemma_entries(m, 256);
    let r = ins_all(Map::empty(), rtpmaps_below(m, 256));
    assert(r =~= m);
}

/// What an fmtp entry needs to read back: a format that is one line, not
/// empty and not ending in whitespace.
pub open spec fn fmtp_ok(f: FmtpModel) -> bool {
    f.format.len() > 0 && tail_ok(f.format) && lacks(f.format, '\n')
}

/// The fmtp line of an entry.
pub open spec fn fmtp_line(f: FmtpModel) -> Seq<char> {
    "a=fmtp:"@ + decimal(f.payload_type as nat) + " "@ + f.format + crlf()
}

#[verifier::spinoff_prover]
pub proof fn lemma_fmtp_line(f: FmtpModel, rest: Seq<char>, st: ParseModel) -> (st2: ParseModel)
    requires
        st.media is Some,
        fmtp_ok(f),
    ensures
        read_text(fmtp_line(f) + rest, st) == read_text(rest, st2),
        st2.media == Some(MediaModel { fmtps: st.media->0.fmtps.push(f), ..st.media->0 }),
        st2.session == st.session,
{
    reveal_strlit("a=fmtp:");
    reveal_strlit("a=");
    reveal_strlit(" ");
    lemma_names();
    let dp = decimal(f.payload_type as nat);
    lemma_decimal(f.payload_type as nat);
    lemma_parse_decimal(f.payload_type as nat, 0xFF);
    let v = dp + seq![' '] + f.format;
    let u = "fmtp"@ + seq![':'] + v;
    assert(fmtp_line(f) + rest =~= "a="@ + u + crlf() + rest);
    lemma_lacks_cat(dp, seq![' '], '\n');
    lemma_lacks_cat(dp + seq![' '], f.format, '\n');
    assert(lacks("fmtp"@ + seq![':'], '\n'));
    lemma_lacks_cat("fmtp"@ + seq![':'], v, '\n');
    assert(lacks("fmtp"@, ':'));
    assert(v.last() == f.format.last());
    lemma_named("fmtp"@, v);
    // the value splits at its first space
    lemma_find_char_at(v, ' ', 0, dp.len() as int);
    assert(v.subrange(0, dp.len() as int) =~= dp);
    assert(v.subrange(dp.len() + 1int, v.len() as int) =~= f.format);
    assert(fmtp_model(v) == Some(f));
    lemma_a_line(u, rest, st)
}

pub proof fn lemma_fmtp_lines(fs: Seq<FmtpModel>, rest: Seq<char>, st: ParseModel) -> (st2: ParseModel)
    requires
        st.media is Some,
        forall|i: int| 0 <= i < fs.len() ==> fmtp_ok(#[trigger] fs[i]),
    ensures
        read_text(fmtp_lines(fs) + rest, st) == read_text(rest, st2),
        st2.media == Some(MediaModel { fmtps: st.media->0.fmtps + fs, ..st.media->0 }),
        st2.session == st.session,
    decreases fs.len(),
{
    if fs.len() == 0 {
        assert(fmtp_lines(fs) + rest =~= rest);
        assert(st.media->0.fmtps + fs =~= st.media->0.fmtps);
        st
    } else {
        let dl = fs.drop_last();
        let f = fs.last();
        assert forall|i: int| 0 <= i < dl.len() implies fmtp_ok(#[trigger] dl[i]) by {
            assert(dl[i] == fs[i]);
        }
        assert(fmtp_ok(fs[fs.len() - 1]));
        assert(fmtp_lines(fs) + rest =~= fmtp_lines(dl) + (fmtp_line(f) + rest));
        let st1 = lemma_fmtp_lines(dl, fmtp_line(f) + rest, st);
        let st2 = lemma_fmtp_line(f, rest, st1);
        assert(st.media->0.fmtps + dl + seq![f] =~= st.media->0.fmtps + fs);
        assert(st.media->0.fmtps + dl + seq![f] =~= (st.media->0.fmtps + dl).push(f));
        st2
    }
}

/// The ssrc line of an entry.
pub open spec fn ssrc_line(x: SsrcModel) -> Seq<char> {
    "a=ssrc:"@ + decimal(x.ssrc as nat) + match x.cname {
        Some(c) => " cname:"@ + c,
        None => Seq::empty(),
    } + crlf()
}

pub open spec fn ssrc_ok(x: SsrcModel) -> bool {
    x.cname matches Some(c) ==> lacks(c, '\n')
}

pub proof fn lemma_ssrc_line(x: SsrcModel, rest: Seq<char>, st: ParseModel) -> (st2: ParseModel)
    requires
        st.media is Some,
        ssrc_ok(x),
    ensures
        read_text(ssrc_line(x) + rest, st) == read_text(rest, st2),
        kept(st, st2),
{
    reveal_strlit("a=ssrc:");
    reveal_strlit("a=");
    reveal_strlit(" cname:");
    lemma_names();
    let tail = decimal(x.ssrc as nat) + match x.cname {
        Some(c) => " cname:"@ + c,
        None => Seq::empty(),
    };
    lemma_decimal(x.ssrc as nat);
    match x.cname {
        Some(c) => {
            lemma_lacks_cat(decimal(x.ssrc as nat), " cname:"@, '\n');
            lemma_lacks_cat(decimal(x.ssrc as nat) + " cname:"@, c, '\n');
        },
        None => {
            assert(tail =~= decimal(x.ssrc as nat));
        },
    }
    let u = "ssrc"@ + seq![':'] + tail;
    assert(ssrc_line(x) + rest =~= "a="@ + u + crlf() + rest);
    assert(lacks("ssrc"@ + seq![':'], '\n'));
    lemma_lacks_cat("ssrc"@ + seq![':'], tail, '\n');
    assert(!is_ws(':'));
    lemma_trim_end_after("ssrc"@ + seq![':'], tail);
    assert(lacks("ssrc"@, ':'));
    lemma_attr_colon("ssrc"@, trim_end(tail));
    assert(trim_end(u) == "ssrc"@ + seq![':'] + trim_end(tail));
    lemma_a_line(u, rest, st)
}

pub proof fn lemma_ssrc_lines(xs: Seq<SsrcModel>, rest: Seq<char>, st: ParseModel) -> (st2: ParseModel)
    requires
        st.media is Some,
        forall|i: int| 0 <= i < xs.len() ==> ssrc_ok(#[trigger] xs[i]),
    ensures
        read_text(ssrc_lines(xs) + rest, st) == read_text(rest, st2),
        kept(st, st2),
    decreases xs.len(),
{
    if xs.len() == 0 {
        assert(ssrc_lines(xs) + rest =~= rest);
        st
    } else {
        let dl = xs.drop_last();
        let x = xs.last();
        assert forall|i: int| 0 <= i < dl.len() implies ssrc_ok(#[trigger] dl[i]) by {
            assert(dl[i] == xs[i]);
        }
        assert(ssrc_ok(xs[xs.len() - 1]));
        assert(ssrc_lines(xs) + rest =~= ssrc_lines(dl) + (ssrc_line(x) + rest));
        let st1 = lemma_ssrc_lines(dl, ssrc_line(x) + rest, st);
        lemma_ssrc_line(x, rest, st1)
    }
}

/// A connection line inside a media section.
#[verifier::spinoff_prover]
pub proof fn lemma_media_conn(c: Option<ConnectionModel>, rest: Seq<char>, st: ParseModel) -> (st2: ParseModel)
    requires
        conn_ok(c),
        st.media is Some,
    ensures
        read_text(conn_line(c) + rest, st) == read_text(rest, st2),
        kept(st, st2),
{
    match c {
        Some(x) => {
            reveal_strlit("c=");
            reveal_strlit(" ");
            let v = x.nettype + " "@ + x.addrtype + " "@ + x.connection_address;
            let l = "c="@ + v;
            assert(conn_line(c) + rest =~= l + crlf() + rest);
            lemma_token(x.nettype);
            lemma_token(x.addrtype);
            lemma_token(x.connection_address);
            lemma_lacks_cat(x.nettype, " "@, '\n');
            lemma_lacks_cat(x.nettype + " "@, x.addrtype, '\n');
            lemma_lacks_cat(x.nettype + " "@ + x.addrtype, " "@, '\n');
            lemma_lacks_cat(x.nettype + " "@ + x.addrtype + " "@, x.connection_address, '\n');
            lemma_lacks_cat("c="@, v, '\n');
            assert(l.subrange(2, l.len() as int) =~= v);
            assert(v.last() == x.connection_address.last());
            lemma_trim_end_id(v);
            assert(l[0] == 'c' && l[1] == '=');
            lemma_step(l, rest, st);
            assert(line_val(l) == v);
            lemma_words3(x.nettype, x.addrtype, x.connection_address);
            assert(conn_model(v) == Some(x));
            lemma_val_shape('c', v);
            reveal(line_step_val);
            line_step_val(st, 'c', v)->Ok_0
        },
        None => {
            assert(conn_line(c) + rest =~= rest);
            st
        },
    }
}

/// An optional ICE credential line inside a media section.
pub proof fn lemma_media_ice(name: Seq<char>, o: Option<Seq<char>>, rest: Seq<char>, st: ParseModel) -> (st2: ParseModel)
    requires
        name == "ice-ufrag"@ || name == "ice-pwd"@,
        st.media is Some,
        opt_lacks_lf(o),
    ensures
        read_text(opt_line("a="@ + name + seq![':'], o) + rest, st) == read_text(rest, st2),
        kept(st, st2),
{
    lemma_names();
    reveal_strlit("a=");
    match o {
        Some(v) => {
            let u = name + seq![':'] + v;
            assert(opt_line("a="@ + name + seq![':'], o) + rest =~= "a="@ + u + crlf() + rest);
            assert(lacks(name + seq![':'], '\n'));
            lemma_lacks_cat(name + seq![':'], v, '\n');
            assert(!is_ws(':'));
            lemma_trim_end_after(name + seq![':'], v);
            assert(lacks(name, ':'));
            lemma_attr_colon(name, trim_end(v));
            assert(trim_end(u) == name + seq![':'] + trim_end(v));
            lemma_a_line(u, rest, st)
        },
        None => {
            assert(opt_line("a="@ + name + seq![':'], o) + rest =~= rest);
            st
        },
    }
}

pub open spec fn candidate_ok(c: Seq<char>) -> bool {
    lacks(c, '\n') && tail_ok(c)
}

pub proof fn lemma_candidate_line(c: Seq<char>, rest: Seq<char>, st: ParseModel) -> (st2: ParseModel)
    requires
        st.media is Some,
        candidate_ok(c),
    ensures
        read_text("a=candidate:"@ + c + crlf() + rest, st) == read_text(rest, st2),
        st2.media == Some(MediaModel { candidates: st.media->0.candidates.push(c), ..st.media->0 }),
        st2.session == st.session,
{
    reveal_strlit("a=candidate:");
    reveal_strlit("a=");
    lemma_names();
    let u = "candidate"@ + seq![':'] + c;
    assert("a=candidate:"@ + c + crlf() + rest =~= "a="@ + u + crlf() + rest);
    assert(lacks("candidate"@ + seq![':'], '\n'));
    lemma_lacks_cat("candidate"@ + seq![':'], c, '\n');
    assert(lacks("candidate"@, ':'));
    lemma_named("candidate"@, c);
    lemma_a_line(u, rest, st)
}

pub proof fn lemma_candidate_lines(cs: Seq<Seq<char>>, rest: Seq<char>, st: ParseModel) -> (st2: ParseModel)
    requires
        st.media is Some,
        forall|i: int| 0 <= i < cs.len() ==> candidate_ok(#[trigger] cs[i]),
    ensures
        read_text(candidate_lines(cs) + rest, st) == read_text(rest, st2),
        st2.media == Some(MediaModel { candidates: st.media->0.candidates + cs, ..st.media->0 }),
        st2.session == st.session,
    decreases cs.len(),
{
    if cs.len() == 0 {
        assert(candidate_lines(cs) + rest =~= rest);
        assert(st.media->0.candidates + cs =~= st.media->0.candidates);
        st
    } else {
        let dl = cs.drop_last();
        let c = cs.last();
        assert forall|i: int| 0 <= i < dl.len() implies candidate_ok(#[trigger] dl[i]) by {
            assert(dl[i] == cs[i]);
        }
        assert(candidate_ok(cs[cs.len() - 1]));
        assert(candidate_lines(cs) + rest =~= candidate_lines(dl) + ("a=candidate:"@ + c + crlf() + rest));
        let st1 = lemma_candidate_lines(dl, "a=candidate:"@ + c + crlf() + rest, st);
        let st2 = lemma_candidate_line(c, rest, st1);
        assert((st.media->0.candidates + dl).push(c) =~= st.media->0.candidates + cs);
        st2
    }
}

pub proof fn lemma_rtcp_mux_line(rest: Seq<char>, st: ParseModel) -> (st2: ParseModel)
    requires
        st.media is Some,
    ensures
        read_text("a=rtcp-mux\r\n"@ + rest, st) == read_text(rest, st2),
        st2.media == Some(MediaModel { rtcp_mux: true, ..st.media->0 }),
        st2.session == st.session,
{
    reveal_strlit("a=rtcp-mux\r\n");
    reveal_strlit("a=");
    reveal_strlit("\r\n");
    lemma_names();
    let u = "rtcp-mux"@;
    assert("a=rtcp-mux\r\n"@ + rest =~= "a="@ + u + crlf() + rest);
    assert(lacks(u, '\n') && lacks(u, ':') && tail_ok(u));
    lemma_trim_end_id(u);
    lemma_attr_bare(u);
    lemma_a_line(u, rest, st)
}

/// What a media section needs to read back.
pub open spec fn media_printable(m: MediaModel) -> bool {
    &&& mline_ok(m)
    &&& conn_ok(m.connection)
    &&& (m.mid matches Some(v) ==> lacks(v, '\n') && tail_ok(v))
    &&& forall|k: u8| #[trigger]
        m.rtpmaps.contains_key(k) ==> m.rtpmaps[k].payload_type == k && rtpmap_entry_ok(m.rtpmaps[k])
    &&& forall|i: int| 0 <= i < m.fmtps.len() ==> fmtp_ok(#[trigger] m.fmtps[i])
    &&& forall|i: int| 0 <= i < m.ssrcs.len() ==> ssrc_ok(#[trigger] m.ssrcs[i])
    &&& opt_lacks_lf(m.ice_ufrag)
    &&& opt_lacks_lf(m.ice_pwd)
    &&& forall|i: int| 0 <= i < m.candidates.len() ==> candidate_ok(#[trigger] m.candidates[i])
}

pub proof fn lemma_assoc11(
    a: Seq<char>,
    b: Seq<char>,
    c: Seq<char>,
    d: Seq<char>,
    e: Seq<char>,
    f: Seq<char>,
    g: Seq<char>,
    h: Seq<char>,
    i: Seq<char>,
    j: Seq<char>,
    k: Seq<char>,
    r: Seq<char>,
)
    ensures
        (a + b + c + d) + e + f + g + (h + i + j + k) + r == a + (b + (c + (d + (e + (f + (g + (h + (i + (j + (k
            + r)))))))))),
{
    assert((a + b + c + d) + e + f + g + (h + i + j + k) + r =~= a + (b + (c + (d + (e + (f + (g + (h + (i + (j
        + (k + r)))))))))));
}

/// A media section reads back as itself, as far as the law compares, and
/// files the section read before it.
#[verifier::spinoff_prover]
#[verifier::rlimit(60)]
pub proof fn lemma_media(m: MediaModel, rest: Seq<char>, st: ParseModel) -> (st2: ParseModel)
    requires
        media_printable(m),
    ensures
        read_text(media_text(m) + rest, st) == read_text(rest, st2),
        st2.media is Some,
        media_same(st2.media->0, m),
        st2.session.media == pushed(st),
        session_kept(st, st2),
{
    reveal_strlit("a=ice-ufrag:");
    reveal_strlit("a=ice-pwd:");
    reveal_strlit("a=");
    lemma_names();
    let l_m = "m="@ + mline_value(m) + crlf();
    let l_c = conn_line(m.connection);
    let l_mid = opt_line("a=mid:"@, m.mid);
    let l_dir = "a="@ + direction_text(m.direction) + crlf();
    let es = rtpmap_entries(m.rtpmaps);
    let t_r = rtpmap_lines(es);
    let t_f = fmtp_lines(m.fmtps);
    let t_s = ssrc_lines(m.ssrcs);
    assert("a=ice-ufrag:"@ =~= "a="@ + "ice-ufrag"@ + seq![':']);
    assert("a=ice-pwd:"@ =~= "a="@ + "ice-pwd"@ + seq![':']);
    let t_iu = opt_line("a="@ + "ice-ufrag"@ + seq![':'], m.ice_ufrag);
    let t_ip = opt_line("a="@ + "ice-pwd"@ + seq![':'], m.ice_pwd);
    let t_c = candidate_lines(m.candidates);
    let t_x = if m.rtcp_mux {
        "a=rtcp-mux\r\n"@
    } else {
        Seq::empty()
    };
    assert(media_head(m) =~= l_m + l_c + l_mid + l_dir);
    assert(media_tail(m) == t_iu + t_ip + t_c + t_x);
    assert(media_text(m) == (l_m + l_c + l_mid + l_dir) + t_r + t_f + t_s + (t_iu + t_ip + t_c + t_x));
    lemma_assoc11(l_m, l_c, l_mid, l_dir, t_r, t_f, t_s, t_iu, t_ip, t_c, t_x, rest);
    let r10 = t_x + rest;
    let r9 = t_c + r10;
    let r8 = t_ip + r9;
    let r7 = t_iu + r8;
    let r6 = t_s + r7;
    let r5 = t_f + r6;
    let r4 = t_r + r5;
    let r3 = l_dir + r4;
    let r2 = l_mid + r3;
    let r1 = l_c + r2;
    let s1 = lemma_m_line(m, r1, st);
    let s2 = lemma_media_conn(m.connection, r2, s1);
    let s3 = lemma_mid_line(m.mid, r3, s2);
    let s4 = lemma_dir_line(m.direction, r4, s3);
    lemma_entries_all(m.rtpmaps);
    assert forall|i: int| 0 <= i < es.len() implies rtpmap_entry_ok(#[trigger] es[i].1) by {
        assert(m.rtpmaps.contains_key(es[i].0));
    }
    let s5 = lemma_rtpmap_lines(es, r5, s4);
    let s6 = lemma_fmtp_lines(m.fmtps, r6, s5);
    assert(Seq::<FmtpModel>::empty() + m.fmtps =~= m.fmtps);
    let s7 = lemma_ssrc_lines(m.ssrcs, r7, s6);
    let s8 = lemma_media_ice("ice-ufrag"@, m.ice_ufrag, r8, s7);
    let s9 = lemma_media_ice("ice-pwd"@, m.ice_pwd, r9, s8);
    let s10 = lemma_candidate_lines(m.candidates, r10, s9);
    assert(Seq::<Seq<char>>::empty() + m.candidates =~= m.candidates);
    if m.rtcp_mux {
        lemma_rtcp_mux_line(rest, s10)
    } else {
        assert(r10 =~= rest);
        s10
    }
}

/// Two lists of media sections agree on everything the law compares.
pub open spec fn all_same(a: Seq<MediaModel>, b: Seq<MediaModel>) -> bool {
    a.len() == b.len() && forall|i: int| 0 <= i < a.len() ==> media_same(#[trigger] a[i], b[i])
}

/// The media sections, read one after the other.
pub proof fn lemma_medias(ms: Seq<MediaModel>, rest: Seq<char>, st: ParseModel) -> (st2: ParseModel)
    requires
        forall|i: int| 0 <= i < ms.len() ==> media_printable(#[trigger] ms[i]),
    ensures
        read_text(medias_text(ms) + rest, st) == read_text(rest, st2),
        all_same(pushed(st2), pushed(st) + ms),
        session_kept(st, st2),
        ms.len() > 0 ==> st2.media is Some,
        ms.len() == 0 ==> st2 == st,
    decreases ms.len(),
{
    if ms.len() == 0 {
        assert(medias_text(ms) + rest =~= rest);
        assert(pushed(st) + ms =~= pushed(st));
        st
    } else {
        let dl = ms.drop_last();
        let m = ms.last();
        assert forall|i: int| 0 <= i < dl.len() implies media_printable(#[trigger] dl[i]) by {
            assert(dl[i] == ms[i]);
        }
        assert(media_printable(ms[ms.len() - 1]));
        assert(medias_text(ms) + rest =~= medias_text(dl) + (media_text(m) + rest));
        let st1 = lemma_medias(dl, media_text(m) + rest, st);
        let st2 = lemma_media(m, rest, st1);
        let want = pushed(st) + ms;
        assert(want =~= (pushed(st) + dl).push(m));
        assert(pushed(st2) == pushed(st1).push(st2.media->0));
        assert forall|i: int| 0 <= i < pushed(st2).len() implies media_same(#[trigger] pushed(st2)[i], want[i]) by {
            if i < pushed(st1).len() {
                assert(pushed(st2)[i] == pushed(st1)[i]);
                assert(want[i] == (pushed(st) + dl)[i]);
            }
        }
        st2
    }
}

/// Reading nothing leaves the state as it is.
pub proof fn lemma_read_empty(st: ParseModel)
    ensures
        read_text(Seq::empty(), st) == Ok::<ParseModel, SdpErrModel>(st),
{
    reveal(read_text);
    let e = Seq::<char>::empty();
    lemma_split_none(e, '\n');
    let lines = split_on(e, '\n');
    assert(lines[0] == e);
    assert(trim(e) =~= e);
    assert(line_step(st, e) == Ok::<ParseModel, SdpErrModel>(st));
    assert(lines.drop_first() =~= Seq::<Seq<char>>::empty());
    assert(parse_lines(Seq::<Seq<char>>::empty(), st) == Ok::<ParseModel, SdpErrModel>(st));
    assert(parse_lines(lines, st) == parse_lines(lines.drop_first(), st));
}

/// What a session needs for its text to read back: the session-level
/// texts are single lines and its connection three tokens (as
/// `head_printable` says), and every media section is printable.
pub open spec fn session_printable(s: SessionModel) -> bool {
    &&& head_printable(s)
    &&& forall|i: int| 0 <= i < s.media.len() ==> media_printable(#[trigger] s.media[i])
}

/// Printing a printable session and reading the text back gives the same
/// version, name, timing and number of media sections, and each media
/// section its type, port and count, protocol, formats, mid, direction,
/// rtpmaps, fmtps, candidates and RTCP multiplexing. Printable means that
/// each text sits on one line and ends in no whitespace where the reader
/// trims, and the fields the reader splits at whitespace or `/` are tokens
/// (see `session_printable`).
pub proof fn sdp_print_parse_law(s: SessionModel)
    requires
        session_printable(s),
    ensures
        parse_model(session_text(s)) is Ok,
        ({
            let r = parse_model(session_text(s))->Ok_0;
            &&& r.version == s.version
            &&& r.session_name == s.session_name
            &&& r.timing == s.timing
            &&& all_same(r.media, s.media)
        }),
{
    let init = ParseModel { session: empty_session(), media: None, ssrc: None };
    let mt = medias_text(s.media);
    assert(session_text(s) == session_head(s) + mt);
    let st1 = lemma_head(s, mt, init);
    assert(mt + Seq::<char>::empty() =~= mt);
    let st2 = lemma_medias(s.media, Seq::empty(), st1);
    lemma_read_empty(st2);
    reveal(read_text);
    assert(pushed(st1) == Seq::<MediaModel>::empty());
    assert(pushed(st1) + s.media =~= s.media);
    let r = finish(st2);
    assert(parse_model(session_text(s)) == Ok::<SessionModel, SdpErrModel>(r));
    assert forall|i: int| 0 <= i < r.media.len() implies media_same(#[trigger] r.media[i], s.media[i]) by {
        assert(media_same(pushed(st2)[i], s.media[i]));
        if st2.media is Some && i == r.media.len() - 1 {
        } else {
            assert(r.media[i] == pushed(st2)[i]);
        }
    }
}

/// The words of any text are tokens.
pub proof fn lemma_words_tokens(s: Seq<char>)
    ensures
        forall|i: int| 0 <= i < words(s).len() ==> is_token(#[trigger] words(s)[i]),
    decreases s.len(),
{
    let t = trim_start(s);
    lemma_trim_start_len(s);
    if t.len() > 0 {
        lemma_find_ws(t, 0);
        let k = find_ws(t, 0);
        assert(k > 0);
        let head = t.subrange(0, k);
        let tail = t.subrange(k, t.len() as int);
        lemma_words_tokens(tail);
        assert forall|j: int| 0 <= j < head.len() implies !is_ws(#[trigger] head[j]) by {
            assert(head[j] == t[j]);
        }
        let w = words(s);
        assert(w == seq![head] + words(tail));
        assert forall|i: int| 0 <= i < w.len() implies is_token(#[trigger] w[i]) by {
            if i > 0 {
                assert(w[i] == words(tail)[i - 1]);
            }
        }
    }
}

/// The pieces of a split hold no separator, and no character the text
/// did not hold.
pub proof fn lemma_split_pieces(s: Seq<char>, c: char)
    ensures
        forall|i: int| 0 <= i < split_on(s, c).len() ==> lacks(#[trigger] split_on(s, c)[i], c),
        forall|i: int, j: int|
            0 <= i < split_on(s, c).len() && 0 <= j < split_on(s, c)[i].len() ==> exists|q: int|
                0 <= q < s.len() && s[q] == #[trigger] split_on(s, c)[i][j],
        split_on(s, c).len() > 0,
    decreases s.len(),
{
    lemma_find_char(s, c, 0);
    let k = find_char(s, c, 0);
    if k >= s.len() {
        assert(split_on(s, c) == seq![s]);
        assert forall|i: int, j: int|
            0 <= i < split_on(s, c).len() && 0 <= j < split_on(s, c)[i].len() implies exists|q: int|
                0 <= q < s.len() && s[q] == #[trigger] split_on(s, c)[i][j] by {
            assert(s[j] == split_on(s, c)[i][j]);
        }
    } else {
        let head = s.subrange(0, k);
        let tail = s.subrange(k + 1, s.len() as int);
        lemma_split_pieces(tail, c);
        let sp = split_on(s, c);
        assert(sp == seq![head] + split_on(tail, c));
        assert forall|i: int| 0 <= i < sp.len() implies lacks(#[trigger] sp[i], c) by {
            if i > 0 {
                assert(sp[i] == split_on(tail, c)[i - 1]);
            }
        }
        assert forall|i: int, j: int| 0 <= i < sp.len() && 0 <= j < sp[i].len() implies exists|q: int|
            0 <= q < s.len() && s[q] == #[trigger] sp[i][j] by {
            if i == 0 {
                assert(s[j] == sp[i][j]);
            } else {
                assert(sp[i] == split_on(tail, c)[i - 1]);
                let q2 = choose|q2: int| 0 <= q2 < tail.len() && tail[q2] == split_on(tail, c)[i - 1][j];
                assert(s[q2 + k + 1] == tail[q2]);
            }
        }
    }
}

/// A piece of a split of a token holds no whitespace.
pub proof fn lemma_split_ws_free(s: Seq<char>, c: char, i: int)
    requires
        ws_free(s),
        0 <= i < split_on(s, c).len(),
    ensures
        ws_free(split_on(s, c)[i]),
        lacks(split_on(s, c)[i], c),
{
    lemma_split_pieces(s, c);
    let p = split_on(s, c)[i];
    assert forall|j: int| 0 <= j < p.len() implies !is_ws(#[trigger] p[j]) by {
        let q = choose|q: int| 0 <= q < s.len() && s[q] == split_on(s, c)[i][j];
        assert(!is_ws(s[q]));
    }
}

pub proof fn lemma_trim_end_props(v: Seq<char>)
    ensures
        trim_end(v).len() <= v.len(),
        trim_end(v) == v.subrange(0, trim_end(v).len() as int),
        trim_end(v).len() > 0 ==> !is_ws(trim_end(v).last()),
    decreases v.len(),
{
    if v.len() > 0 && is_ws(v.last()) {
        lemma_trim_end_props(v.drop_last());
        assert(v.drop_last().subrange(0, trim_end(v).len() as int) =~= v.subrange(0, trim_end(v).len() as int));
    } else {
        assert(v.subrange(0, v.len() as int) =~= v);
    }
}

pub proof fn lemma_trim_start_props(v: Seq<char>)
    ensures
        trim_start(v).len() <= v.len(),
        trim_start(v) == v.subrange(v.len() - trim_start(v).len(), v.len() as int),
        trim_start(v).len() > 0 ==> !is_ws(trim_start(v)[0]),
    decreases v.len(),
{
    lemma_trim_start_len(v);
    if v.len() > 0 && is_ws(v[0]) {
        lemma_trim_start_props(v.drop_first());
        let n = trim_start(v).len();
        assert(v.drop_first().subrange(v.len() - 1 - n, v.len() - 1) =~= v.subrange(v.len() - n, v.len() as int));
    } else {
        assert(v.subrange(0, v.len() as int) =~= v);
    }
}

/// A line as the reader sees it: one line, trimmed.
pub open spec fn good_line(l: Seq<char>) -> bool {
    &&& lacks(l, '\n')
    &&& (l.len() > 0 ==> !is_ws(l[0]) && !is_ws(l.last()))
}

pub proof fn lemma_trim_good(x: Seq<char>)
    requires
        lacks(x, '\n'),
    ensures
        good_line(trim(x)),
{
    let a = trim_start(x);
    lemma_trim_start_props(x);
    lemma_trim_end_props(a);
    let t = trim(x);
    assert forall|i: int| 0 <= i < t.len() implies #[trigger] t[i] != '\n' by {
        assert(t[i] == a[i]);
        assert(a[i] == x[x.len() - a.len() + i]);
    }
    if t.len() > 0 {
        assert(t[0] == a[0]);
    }
}

/// The text after position `j` of a line is one line that does not end in
/// whitespace.
pub proof fn lemma_suffix(l: Seq<char>, j: int)
    requires
        good_line(l),
        0 <= j <= l.len(),
    ensures
        lacks(l.subrange(j, l.len() as int), '\n'),
        tail_ok(l.subrange(j, l.len() as int)),
{
    let v = l.subrange(j, l.len() as int);
    assert forall|i: int| 0 <= i < v.len() implies #[trigger] v[i] != '\n' by {
        assert(v[i] == l[i + j]);
    }
    if v.len() > 0 {
        assert(v.last() == l.last());
    }
}

/// `media_printable`, spelled out for the reader's states.
pub open spec fn media_ok(m: MediaModel) -> bool {
    &&& is_token(m.media_type)
    &&& is_token(m.proto)
    &&& m.formats.len() > 0
    &&& forall|i: int| 0 <= i < m.formats.len() ==> is_token(#[trigger] m.formats[i])
    &&& conn_ok(m.connection)
    &&& (m.mid matches Some(v) ==> lacks(v, '\n') && tail_ok(v))
    &&& forall|k: u8| #[trigger]
        m.rtpmaps.contains_key(k) ==> m.rtpmaps[k].payload_type == k && rtpmap_entry_ok(m.rtpmaps[k])
    &&& forall|i: int| 0 <= i < m.fmtps.len() ==> fmtp_ok(#[trigger] m.fmtps[i])
    &&& forall|i: int| 0 <= i < m.ssrcs.len() ==> ssrc_ok(#[trigger] m.ssrcs[i])
    &&& opt_lacks_lf(m.ice_ufrag)
    &&& opt_lacks_lf(m.ice_pwd)
    &&& forall|i: int| 0 <= i < m.candidates.len() ==> candidate_ok(#[trigger] m.candidates[i])
}

/// Everything read so far could be printed back.
pub open spec fn parsed_ok(st: ParseModel) -> bool {
    &&& head_printable(st.session)
    &&& forall|i: int| 0 <= i < st.session.media.len() ==> media_ok(#[trigger] st.session.media[i])
    &&& (st.media matches Some(m) ==> media_ok(m))
    &&& (st.ssrc matches Some(x) ==> ssrc_ok(x))
}

pub proof fn lemma_tokens_lack(p: Seq<Seq<char>>)
    requires
        forall|i: int| 0 <= i < p.len() ==> is_token(#[trigger] p[i]),
    ensures
        forall|i: int| 0 <= i < p.len() ==> lacks(#[trigger] p[i], '\n'),
{
    assert forall|i: int| 0 <= i < p.len() implies lacks(#[trigger] p[i], '\n') by {
        lemma_token(p[i]);
    }
}

pub proof fn lemma_rtpmap_model_ok(v: Seq<char>)
    ensures
        rtpmap_model(v) matches Some(r) ==> rtpmap_entry_ok(r),
{
    lemma_words_tokens(v);
    let p = words(v);
    if p.len() >= 2 {
        lemma_token(p[1]);
        let e = split_on(p[1], '/');
        lemma_split_pieces(p[1], '/');
        lemma_split_ws_free(p[1], '/', 0);
        if e.len() > 2 {
            lemma_split_ws_free(p[1], '/', 2);
        }
    }
}

pub proof fn lemma_fmtp_model_ok(v: Seq<char>)
    requires
        lacks(v, '\n'),
        tail_ok(v),
    ensures
        fmtp_model(v) matches Some(f) ==> fmtp_ok(f),
{
    let k = find_char(v, ' ', 0);
    lemma_find_char(v, ' ', 0);
    if k < v.len() {
        let f = v.subrange(k + 1, v.len() as int);
        assert forall|i: int| 0 <= i < f.len() implies #[trigger] f[i] != '\n' by {
            assert(f[i] == v[i + k + 1]);
        }
        if f.len() == 0 {
            assert(v.last() == ' ');
            assert(is_ws(' '));
        } else {
            assert(f.last() == v.last());
        }
    }
}

pub proof fn lemma_media_model_ok(v: Seq<char>)
    ensures
        media_model(v) matches Some(m) ==> media_ok(m),
{
    lemma_words_tokens(v);
    let p = words(v);
    if p.len() >= 4 {
        assert forall|i: int| 0 <= i < p.skip(3).len() implies is_token(#[trigger] p.skip(3)[i]) by {
            assert(p.skip(3)[i] == p[i + 3]);
        }
    }
}

pub proof fn lemma_conn_model_ok(v: Seq<char>)
    ensures
        conn_ok(conn_model(v)),
{
    lemma_words_tokens(v);
}

/// The value after the first `:` of a line's value is one line that does
/// not end in whitespace.
pub proof fn lemma_attr_val_ok(l: Seq<char>)
    requires
        good_line(l),
        l.len() >= 2,
    ensures
        attr_val(l.subrange(2, l.len() as int)) matches Some(v) ==> lacks(v, '\n') && tail_ok(v),
{
    let value = l.subrange(2, l.len() as int);
    let k = find_char(value, ':', 0);
    lemma_find_char(value, ':', 0);
    if k < value.len() {
        assert(value.subrange(k + 1, value.len() as int) =~= l.subrange(k + 3, l.len() as int));
        lemma_suffix(l, k + 3);
    }
}

/// A media-level attribute keeps everything printable.
#[verifier::spinoff_prover]
#[verifier::rlimit(40)]
pub proof fn lemma_media_attr_ok(st: ParseModel, name: Seq<char>, val: Option<Seq<char>>)
    requires
        parsed_ok(st),
        st.media is Some,
        val matches Some(v) ==> lacks(v, '\n') && tail_ok(v),
    ensures
        parsed_ok(media_attr_step(st, name, val)),
{
    let m = st.media->0;
    match val {
        Some(v) => {
            lemma_rtpmap_model_ok(v);
            lemma_fmtp_model_ok(v);
            lemma_words_tokens(v);
            let p = words(v);
            if p.len() > 1 {
                lemma_token(p[1]);
                let ap = split_on(p[1], ':');
                lemma_split_pieces(p[1], ':');
                if ap.len() >= 2 {
                    lemma_split_ws_free(p[1], ':', 1);
                    lemma_ws_free_lacks(ap[1]);
                }
            }
            let st2 = media_attr_step(st, name, val);
            let m2 = st2.media->0;
            assert forall|i: int| 0 <= i < m2.fmtps.len() implies fmtp_ok(#[trigger] m2.fmtps[i]) by {
                if i < m.fmtps.len() {
                    assert(m2.fmtps[i] == m.fmtps[i] || m2.fmtps == m.fmtps);
                }
            }
            assert forall|i: int| 0 <= i < m2.ssrcs.len() implies ssrc_ok(#[trigger] m2.ssrcs[i]) by {
                if i < m.ssrcs.len() {
                    assert(m2.ssrcs[i] == m.ssrcs[i] || m2.ssrcs == m.ssrcs);
                }
            }
            assert forall|i: int| 0 <= i < m2.candidates.len() implies candidate_ok(#[trigger] m2.candidates[i]) by {
                if i < m.candidates.len() {
                    assert(m2.candidates[i] == m.candidates[i] || m2.candidates == m.candidates);
                }
            }
            assert forall|i: int| 0 <= i < st2.session.mids.len() implies lacks(#[trigger] st2.session.mids[i], '\n') by {
                if i < st.session.mids.len() {
                    assert(st2.session.mids[i] == st.session.mids[i] || st2.session.mids == st.session.mids);
                }
            }
            assert forall|k: u8| #[trigger] m2.rtpmaps.contains_key(k) implies m2.rtpmaps[k].payload_type == k
                && rtpmap_entry_ok(m2.rtpmaps[k]) by {
                if m.rtpmaps.contains_key(k) && m2.rtpmaps[k] == m.rtpmaps[k] {
                }
            }
        },
        None => {},
    }
}

/// A session-level attribute keeps everything printable.
pub proof fn lemma_session_attr_ok(st: ParseModel, name: Seq<char>, val: Option<Seq<char>>)
    requires
        parsed_ok(st),
        val matches Some(v) ==> lacks(v, '\n') && tail_ok(v),
    ensures
        parsed_ok(session_attr_step(st, name, val)),
{
    match val {
        Some(v) => {
            lemma_words_tokens(v);
            let p = words(v);
            lemma_tokens_lack(p);
            if p.len() > 0 {
                assert forall|i: int| 0 <= i < p.skip(1).len() implies lacks(#[trigger] p.skip(1)[i], '\n') by {
                    assert(p.skip(1)[i] == p[i + 1]);
                }
            }
        },
        None => {},
    }
}

/// One line keeps everything printable.
#[verifier::spinoff_prover]
#[verifier::rlimit(60)]
pub proof fn lemma_line_ok(st: ParseModel, l: Seq<char>)
    requires
        parsed_ok(st),
        good_line(l),
    ensures
        line_step(st, l) matches Ok(st2) ==> parsed_ok(st2),
{
    if l.len() >= 2 && has_char(l, '=') {
        let value = l.subrange(2, l.len() as int);
        lemma_suffix(l, 2);
        lemma_words_tokens(value);
        lemma_tokens_lack(words(value));
        lemma_conn_model_ok(value);
        lemma_media_model_ok(value);
        lemma_attr_val_ok(l);
        if st.media is Some {
            lemma_media_attr_ok(st, attr_name(value), attr_val(value));
        } else {
            lemma_session_attr_ok(st, attr_name(value), attr_val(value));
        }
        match line_step(st, l) {
            Ok(st2) => {
                assert forall|i: int| 0 <= i < st2.session.media.len() implies media_ok(
                    #[trigger] st2.session.media[i],
                ) by {
                    if i < st.session.media.len() {
                        assert(st2.session.media[i] == st.session.media[i] || st2.session.media
                            == st.session.media);
                    }
                }
            },
            Err(_) => {},
        }
    }
}

/// Reading lines keeps everything printable.
pub proof fn lemma_lines_ok(lines: Seq<Seq<char>>, st: ParseModel)
    requires
        parsed_ok(st),
        forall|i: int| 0 <= i < lines.len() ==> lacks(#[trigger] lines[i], '\n'),
    ensures
        parse_lines(lines, st) matches Ok(st2) ==> parsed_ok(st2),
    decreases lines.len(),
{
    if lines.len() > 0 {
        assert(lacks(lines[0], '\n'));
        lemma_trim_good(lines[0]);
        lemma_line_ok(st, trim(lines[0]));
        let rest = lines.drop_first();
        assert forall|i: int| 0 <= i < rest.len() implies lacks(#[trigger] rest[i], '\n') by {
            assert(rest[i] == lines[i + 1]);
        }
        match line_step(st, trim(lines[0])) {
            Ok(st2) => {
                lemma_lines_ok(rest, st2);
            },
            Err(_) => {},
        }
    }
}

/// A session read from any text could be printed back.
pub proof fn lemma_parsed_ok(x: Seq<char>)
    ensures
        parse_model(x) matches Ok(s) ==> head_printable(s) && forall|i: int|
            0 <= i < s.media.len() ==> media_ok(#[trigger] s.media[i]),
{
    let init = ParseModel { session: empty_session(), media: None, ssrc: None };
    lemma_split_pieces(x, '\n');
    lemma_lines_ok(split_on(x, '\n'), init);
    match parse_lines(split_on(x, '\n'), init) {
        Ok(st) => {
            let r = finish(st);
            assert forall|i: int| 0 <= i < r.media.len() implies media_ok(#[trigger] r.media[i]) by {
                if i < st.session.media.len() {
                    assert(r.media[i] == st.session.media[i]);
                } else {
                    let m = st.media->0;
                    let m2 = r.media[i];
                    assert forall|j: int| 0 <= j < m2.ssrcs.len() implies ssrc_ok(#[trigger] m2.ssrcs[j]) by {
                        if j < m.ssrcs.len() {
                            assert(m2.ssrcs[j] == m.ssrcs[j]);
                        }
                    }
                }
            }
        },
        Err(_) => {},
    }
}

/// Printing a session read from any text and reading the print back gives
/// the same version, name, timing and number of media sections, and each
/// media section its type, port and count, protocol, formats, mid,
/// direction, rtpmaps, fmtps, candidates and RTCP multiplexing.
pub proof fn sdp_roundtrip_law(x: Seq<char>)
    requires
        parse_model(x) is Ok,
    ensures
        ({
            let s = parse_model(x)->Ok_0;
            &&& parse_model(session_text(s)) is Ok
            &&& parse_model(session_text(s))->Ok_0.version == s.version
            &&& parse_model(session_text(s))->Ok_0.session_name == s.session_name
            &&& parse_model(session_text(s))->Ok_0.timing == s.timing
            &&& all_same(parse_model(session_text(s))->Ok_0.media, s.media)
        }),
{
    let s = parse_model(x)->Ok_0;
    lemma_parsed_ok(x);
    assert forall|i: int| 0 <= i < s.media.len() implies media_printable(#[trigger] s.media[i]) by {
        assert(media_ok(s.media[i]));
    }
    sdp_print_parse_law(s);
}

/// Reading the line `a=ssrc:N key:value` inside a media section starts
/// SSRC `N` whose field named by `key` holds `value`: `cname`, `msid`,
/// `mslabel` and `label` each fill their own field, any other key none,
/// and the fields not named stay empty.
pub proof fn ssrc_line_law(st: ParseModel, n: u32, key: Seq<char>, x: Seq<char>, rest: Seq<char>) -> (st2: ParseModel)
    requires
        st.media is Some,
        is_token(key),
        lacks(key, ':'),
        ws_free(x),
        lacks(x, ':'),
    ensures
        read_text("a=ssrc:"@ + decimal(n as nat) + " "@ + key + seq![':'] + x + crlf() + rest, st) == read_text(
            rest,
            st2,
        ),
        st2.ssrc == Some(
            SsrcModel {
                ssrc: n,
                cname: if key == "cname"@ { Some(x) } else { None },
                msid: if key == "msid"@ { Some(x) } else { None },
                mslabel: if key == "mslabel"@ { Some(x) } else { None },
                label: if key == "label"@ { Some(x) } else { None },
            },
        ),
{
    reveal_strlit("a=ssrc:");
    reveal_strlit("a=");
    reveal_strlit(" ");
    reveal_strlit("cname");
    reveal_strlit("msid");
    reveal_strlit("mslabel");
    reveal_strlit("label");
    lemma_names();
    let d = decimal(n as nat);
    lemma_decimal(n as nat);
    lemma_parse_decimal(n as nat, 0xFFFF_FFFF);
    let kx = key + seq![':'] + x;
    // the key and value form one token that splits at its colon
    assert forall|i: int| 0 <= i < kx.len() implies !is_ws(#[trigger] kx[i]) by {
        if i < key.len() {
            assert(kx[i] == key[i]);
        } else if i > key.len() {
            assert(kx[i] == x[i - key.len() - 1]);
        }
    }
    lemma_split_none(x, ':');
    lemma_split_at(key, x, ':');
    assert(split_on(kx, ':') =~= seq![key, x]);
    lemma_words2(d, kx);
    let v = d + " "@ + kx;
    lemma_token(d);
    lemma_token(kx);
    lemma_lacks_cat(d, " "@, '\n');
    lemma_lacks_cat(d + " "@, kx, '\n');
    assert(v.last() == kx.last());
    let u = "ssrc"@ + seq![':'] + v;
    assert("a=ssrc:"@ + d + " "@ + key + seq![':'] + x + crlf() + rest =~= "a="@ + u + crlf() + rest);
    assert(lacks("ssrc"@ + seq![':'], '\n'));
    lemma_lacks_cat("ssrc"@ + seq![':'], v, '\n');
    assert(lacks("ssrc"@, ':'));
    lemma_named("ssrc"@, v);
    let st2 = lemma_a_line(u, rest, st);
    assert(words(v) == seq![d, kx]);
    st2
}

} // verus!
