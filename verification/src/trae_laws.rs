//! What holds of the Trae text functions across calls: snake case is a
//! normal form, and removing the herdr trust tables undoes adding them.
use vstd::prelude::*;
use crate::digest::{hex_lower, is_hex_char, lemma_hex_lower_chars, sha256_spec};
use crate::json::{json_compact_text, JsonView};
use crate::names::trae_hook_events_spec;
use crate::text::{
    all_ws, has_crlf, is_ws, join_lines, lemma_first_newline, lemma_join_push, lemma_lines_append,
    lemma_lines_cons, lemma_lines_single, lemma_trim_end_shape, lines_of, no_newline, strip_cr,
    first_newline, trim_end_spec, trim_spec, trim_start_spec,
};
use crate::hooks::command_handler_spec;
use crate::names::{TRAE_HOOK_TIMEOUT_SEC, TRAE_PLUGIN_MARKETPLACE, TRAE_PLUGIN_NAME};
use crate::paths::join_path_spec;
use crate::trae::{plugin_hook_command_spec, plugin_registered_spec, plugin_table_spec, trae_plugin_hooks_spec};
use crate::trae_cli::trae_cli_candidates_spec;
use crate::trae::{
    add_entries, ascii_lower, is_ascii_upper, is_table_line, is_trust_header_spec, keep_lines,
    plugin_id_spec, snake_case_spec, trust_entry_spec, trust_header_prefix, trust_identity,
    trust_key_spec, trusted_hash_spec, with_spec, without_spec,
};

verus! {

// ---------------------------------------------------------------------------
// Snake case
// ---------------------------------------------------------------------------

/// No character of `s` is an upper-case ASCII letter.
pub open spec fn no_ascii_upper(s: Seq<char>) -> bool {
    forall|i: int| 0 <= i < s.len() ==> !is_ascii_upper(#[trigger] s[i])
}

proof fn lemma_ascii_lower(c: char)
    requires
        is_ascii_upper(c),
    ensures
        'a' <= ascii_lower(c) <= 'z',
{
}

proof fn lemma_snake_no_upper(s: Seq<char>)
    ensures
        no_ascii_upper(snake_case_spec(s)),
    decreases s.len(),
{
    if s.len() > 0 {
        lemma_snake_no_upper(s.drop_last());
        let c = s.last();
        if is_ascii_upper(c) {
            lemma_ascii_lower(c);
        }
        let r = snake_case_spec(s);
        let p = snake_case_spec(s.drop_last());
        assert forall|i: int| 0 <= i < r.len() implies !is_ascii_upper(#[trigger] r[i]) by {
            if i < p.len() {
                assert(r[i] == p[i]);
            }
        }
    }
}

proof fn lemma_snake_identity(s: Seq<char>)
    requires
        no_ascii_upper(s),
    ensures
        snake_case_spec(s) == s,
    decreases s.len(),
{
    if s.len() > 0 {
        assert(!is_ascii_upper(s[s.len() - 1]));
        lemma_snake_identity(s.drop_last());
        assert(s.drop_last().push(s.last()) =~= s);
    }
}

/// A snake-case event name holds no upper-case ASCII letter, so converting
/// it again changes nothing.
pub proof fn law_snake_case_is_normal_form(event: Seq<char>)
    ensures
        no_ascii_upper(snake_case_spec(event)),
        snake_case_spec(snake_case_spec(event)) == snake_case_spec(event),
{
    lemma_snake_no_upper(event);
    lemma_snake_identity(snake_case_spec(event));
}

proof fn lemma_snake_no_newline(s: Seq<char>)
    requires
        no_newline(s),
    ensures
        no_newline(snake_case_spec(s)),
    decreases s.len(),
{
    if s.len() > 0 {
        assert(no_newline(s.drop_last())) by {
            assert forall|i: int| 0 <= i < s.drop_last().len() implies #[trigger] s.drop_last()[i]
                != '\n' by {
                assert(s.drop_last()[i] == s[i]);
            }
        }
        lemma_snake_no_newline(s.drop_last());
        let c = s.last();
        assert(c == s[s.len() - 1]);
        if is_ascii_upper(c) {
            lemma_ascii_lower(c);
        }
        let r = snake_case_spec(s);
        let p = snake_case_spec(s.drop_last());
        assert forall|i: int| 0 <= i < r.len() implies #[trigger] r[i] != '\n' by {
            if i < p.len() {
                assert(r[i] == p[i]);
            }
        }
    }
}

// ---------------------------------------------------------------------------
// Trimming and line structure
// ---------------------------------------------------------------------------

proof fn lemma_trim_start_append_ws(a: Seq<char>, b: Seq<char>)
    requires
        all_ws(b),
    ensures
        trim_start_spec(a + b) == (if all_ws(a) {
            Seq::<char>::empty()
        } else {
            trim_start_spec(a) + b
        }),
    decreases a.len(),
{
    if a.len() == 0 {
        assert(a + b =~= b);
        lemma_trim_start_all_ws(b);
    } else if is_ws(a[0]) {
        assert((a + b).drop_first() =~= a.drop_first() + b);
        lemma_trim_start_append_ws(a.drop_first(), b);
        if all_ws(a.drop_first()) {
            assert forall|i: int| 0 <= i < a.len() implies is_ws(#[trigger] a[i]) by {
                if i > 0 {
                    assert(a[i] == a.drop_first()[i - 1]);
                }
            }
        } else {
            assert(!all_ws(a));
        }
    } else {
        assert(!all_ws(a));
        assert((a + b)[0] == a[0]);
    }
}

proof fn lemma_trim_start_all_ws(s: Seq<char>)
    requires
        all_ws(s),
    ensures
        trim_start_spec(s) == Seq::<char>::empty(),
    decreases s.len(),
{
    if s.len() > 0 {
        assert(is_ws(s[0]));
        assert(all_ws(s.drop_first())) by {
            assert forall|i: int| 0 <= i < s.drop_first().len() implies is_ws(
                #[trigger] s.drop_first()[i],
            ) by {
                assert(s.drop_first()[i] == s[i + 1]);
            }
        }
        lemma_trim_start_all_ws(s.drop_first());
    }
}

proof fn lemma_trim_end_append_ws(a: Seq<char>, b: Seq<char>)
    requires
        all_ws(b),
    ensures
        trim_end_spec(a + b) == trim_end_spec(a),
    decreases b.len(),
{
    if b.len() == 0 {
        assert(a + b =~= a);
    } else {
        assert((a + b).last() == b.last());
        assert((a + b).drop_last() =~= a + b.drop_last());
        assert(all_ws(b.drop_last())) by {
            assert forall|i: int| 0 <= i < b.drop_last().len() implies is_ws(
                #[trigger] b.drop_last()[i],
            ) by {
                assert(b.drop_last()[i] == b[i]);
            }
        }
        lemma_trim_end_append_ws(a, b.drop_last());
    }
}

/// Trailing whitespace does not change what `trim` leaves.
proof fn lemma_trim_append_ws(a: Seq<char>, b: Seq<char>)
    requires
        all_ws(b),
    ensures
        trim_spec(a + b) == trim_spec(a),
{
    lemma_trim_start_append_ws(a, b);
    if all_ws(a) {
        lemma_trim_start_all_ws(a);
    } else {
        lemma_trim_end_append_ws(trim_start_spec(a), b);
    }
}

proof fn lemma_trim_strip_cr(l: Seq<char>)
    ensures
        trim_spec(strip_cr(l)) == trim_spec(l),
{
    if l.len() > 0 && l.last() == '\r' {
        assert(l =~= l.drop_last() + seq!['\r']);
        lemma_trim_append_ws(l.drop_last(), seq!['\r']);
    }
}

proof fn lemma_trim_fixed(s: Seq<char>)
    requires
        s.len() > 0,
        !is_ws(s[0]),
        !is_ws(s.last()),
    ensures
        trim_spec(s) == s,
{
}

proof fn lemma_lines_nonempty(s: Seq<char>)
    requires
        s.len() > 0,
    ensures
        lines_of(s).len() > 0,
{
}

/// The lines of joined newline-free lines are those lines, up to a final
/// `'\r'`, except that a final empty line is not one.
proof fn lemma_lines_of_join(k: Seq<Seq<char>>)
    requires
        forall|i: int| 0 <= i < k.len() ==> no_newline(#[trigger] k[i]),
    ensures
        forall|j: int|
            0 <= j < lines_of(join_lines(k)).len() ==> exists|i: int|
                0 <= i < k.len() && trim_spec(#[trigger] lines_of(join_lines(k))[j]) == trim_spec(
                    k[i],
                ),
    decreases k.len(),
{
    if k.len() == 1 {
        lemma_lines_single(k[0]);
        assert forall|j: int| 0 <= j < lines_of(join_lines(k)).len() implies exists|i: int|
            0 <= i < k.len() && trim_spec(#[trigger] lines_of(join_lines(k))[j]) == trim_spec(
                k[i],
            ) by {
            assert(trim_spec(lines_of(join_lines(k))[j]) == trim_spec(k[0]));
        }
    } else if k.len() > 1 {
        let rest = k.drop_first();
        assert forall|i: int| 0 <= i < rest.len() implies no_newline(#[trigger] rest[i]) by {
            assert(rest[i] == k[i + 1]);
        }
        lemma_lines_of_join(rest);
        lemma_lines_cons(k[0], join_lines(rest));
        let ls = lines_of(join_lines(k));
        assert(ls == seq![strip_cr(k[0])] + lines_of(join_lines(rest)));
        assert forall|j: int| 0 <= j < ls.len() implies exists|i: int|
            0 <= i < k.len() && trim_spec(#[trigger] ls[j]) == trim_spec(k[i]) by {
            if j == 0 {
                lemma_trim_strip_cr(k[0]);
                assert(trim_spec(ls[j]) == trim_spec(k[0]));
            } else {
                assert(ls[j] == lines_of(join_lines(rest))[j - 1]);
                let i = choose|i: int|
                    0 <= i < rest.len() && trim_spec(lines_of(join_lines(rest))[j - 1])
                        == trim_spec(rest[i]);
                assert(rest[i] == k[i + 1]);
            }
        }
    }
}

/// `l` trims to what some line of `ls` trims to.
pub open spec fn trims_like_some(l: Seq<char>, ls: Seq<Seq<char>>) -> bool {
    exists|k: int| 0 <= k < ls.len() && trim_spec(l) == trim_spec(#[trigger] ls[k])
}

/// Cutting trailing whitespace off a text leaves lines that trim to lines
/// of the whole text.
proof fn lemma_lines_of_prefix(s: Seq<char>, p: int)
    requires
        0 <= p <= s.len(),
        all_ws(s.skip(p)),
    ensures
        forall|j: int|
            0 <= j < lines_of(s.take(p)).len() ==> trims_like_some(
                #[trigger] lines_of(s.take(p))[j],
                lines_of(s),
            ),
    decreases s.len(),
{
    let t = s.take(p);
    lemma_first_newline(s);
    let i = first_newline(s);
    if p == 0 {
        assert(lines_of(t) =~= Seq::<Seq<char>>::empty());
    } else if i < p {
        let head = s.take(i as int);
        assert(no_newline(head));
        let rest = s.skip(i + 1 as int);
        let rt = rest.take(p - i - 1);
        assert(s =~= head + seq!['\n'] + rest);
        assert(t =~= head + seq!['\n'] + rt);
        lemma_lines_cons(head, rest);
        lemma_lines_cons(head, rt);
        assert(rest.skip(p - i - 1) =~= s.skip(p));
        lemma_lines_of_prefix(rest, p - i - 1);
        let lt = lines_of(t);
        let ls = lines_of(s);
        assert(lt == seq![strip_cr(head)] + lines_of(rt));
        assert(ls == seq![strip_cr(head)] + lines_of(rest));
        assert forall|j: int| 0 <= j < lt.len() implies trims_like_some(#[trigger] lt[j], ls) by {
            if j == 0 {
                assert(trim_spec(lt[0]) == trim_spec(ls[0]));
            } else {
                assert(lt[j] == lines_of(rt)[j - 1]);
                assert(trims_like_some(lines_of(rt)[j - 1], lines_of(rest)));
                let k = choose|k: int|
                    0 <= k < lines_of(rest).len() && trim_spec(lines_of(rt)[j - 1]) == trim_spec(
                        #[trigger] lines_of(rest)[k],
                    );
                assert(ls[k + 1] == lines_of(rest)[k]);
                assert(trim_spec(lt[j]) == trim_spec(ls[k + 1]));
            }
        }
    } else {
        assert(no_newline(t)) by {
            assert forall|j: int| 0 <= j < t.len() implies #[trigger] t[j] != '\n' by {
                assert(t[j] == s[j]);
            }
        }
        lemma_lines_single(t);
        let first = if i < s.len() {
            strip_cr(s.take(i as int))
        } else {
            s
        };
        assert(lines_of(s)[0] == first);
        let extra = if i < s.len() {
            s.subrange(p, i as int)
        } else {
            s.skip(p)
        };
        assert(all_ws(extra)) by {
            assert forall|j: int| 0 <= j < extra.len() implies is_ws(#[trigger] extra[j]) by {
                assert(extra[j] == s.skip(p)[j]);
            }
        }
        if i < s.len() {
            assert(s.take(i as int) =~= t + extra);
            lemma_trim_append_ws(t, extra);
            lemma_trim_strip_cr(s.take(i as int));
        } else {
            assert(s =~= t + extra);
            lemma_trim_append_ws(t, extra);
        }
        assert(trim_spec(lines_of(t)[0]) == trim_spec(lines_of(s)[0]));
        assert(trims_like_some(lines_of(t)[0], lines_of(s)));
    }
}

/// A text that does not end a line keeps its lines when a newline is added.
proof fn lemma_lines_push_newline(s: Seq<char>)
    requires
        s.len() > 0,
        s.last() != '\n',
        s.last() != '\r',
    ensures
        lines_of(s.push('\n')) == lines_of(s),
    decreases s.len(),
{
    lemma_first_newline(s);
    let i = first_newline(s);
    if i < s.len() {
        let head = s.take(i as int);
        let rest = s.skip(i + 1 as int);
        assert(no_newline(head));
        assert(s =~= head + seq!['\n'] + rest);
        assert(s.push('\n') =~= head + seq!['\n'] + rest.push('\n'));
        lemma_lines_cons(head, rest);
        lemma_lines_cons(head, rest.push('\n'));
        assert(rest.len() > 0);
        assert(rest.last() == s.last());
        lemma_lines_push_newline(rest);
    } else {
        assert(no_newline(s));
        lemma_lines_single(s);
        assert(s.push('\n') =~= s + seq!['\n'] + Seq::<char>::empty());
        lemma_lines_cons(s, Seq::<char>::empty());
        assert(lines_of(Seq::<char>::empty()) =~= Seq::<Seq<char>>::empty());
        assert(lines_of(s.push('\n')) =~= seq![s]);
    }
}

/// Without `"\r\n"`, joining the lines of a text that does not end a line
/// gives the text back.
proof fn lemma_join_lines_of(s: Seq<char>)
    requires
        s.len() > 0,
        s.last() != '\n',
        !has_crlf(s),
    ensures
        join_lines(lines_of(s)) == s,
    decreases s.len(),
{
    lemma_first_newline(s);
    let i = first_newline(s);
    if i < s.len() {
        let head = s.take(i as int);
        let rest = s.skip(i + 1 as int);
        assert(no_newline(head));
        assert(s =~= head + seq!['\n'] + rest);
        lemma_lines_cons(head, rest);
        if i > 0 {
            assert(s[i - 1] != '\r') by {
                if s[i - 1] == '\r' {
                    assert(s[(i - 1) + 1] == '\n');
                }
            }
        }
        assert(strip_cr(head) == head);
        assert(rest.len() > 0);
        assert(rest.last() == s.last());
        assert(!has_crlf(rest)) by {
            if has_crlf(rest) {
                let j = choose|j: int|
                    0 <= j < rest.len() - 1 && rest[j] == '\r' && #[trigger] rest[j + 1] == '\n';
                assert(s[j + i + 1] == rest[j]);
                assert(s[(j + i + 1) + 1] == rest[j + 1]);
            }
        }
        lemma_join_lines_of(rest);
        lemma_lines_nonempty(rest);
        let ls = lines_of(s);
        assert(ls.drop_first() =~= lines_of(rest));
    } else {
        assert(no_newline(s));
        lemma_lines_single(s);
    }
}

// ---------------------------------------------------------------------------
// Keeping lines
// ---------------------------------------------------------------------------

/// Whether a trust table is open after reading `ls`.
pub open spec fn skipping_after(ls: Seq<Seq<char>>, skipping: bool) -> bool
    decreases ls.len(),
{
    if ls.len() == 0 {
        skipping
    } else if is_trust_header_spec(ls[0]) {
        skipping_after(ls.drop_first(), true)
    } else if skipping && !is_table_line(ls[0]) {
        skipping_after(ls.drop_first(), true)
    } else {
        skipping_after(ls.drop_first(), false)
    }
}

proof fn lemma_keep_append(a: Seq<Seq<char>>, b: Seq<Seq<char>>, skipping: bool)
    ensures
        keep_lines(a + b, skipping) == keep_lines(a, skipping) + keep_lines(
            b,
            skipping_after(a, skipping),
        ),
    decreases a.len(),
{
    if a.len() == 0 {
        assert(a + b =~= b);
    } else {
        assert((a + b)[0] == a[0]);
        assert((a + b).drop_first() =~= a.drop_first() + b);
        if is_trust_header_spec(a[0]) {
            lemma_keep_append(a.drop_first(), b, true);
        } else if skipping && !is_table_line(a[0]) {
            lemma_keep_append(a.drop_first(), b, true);
        } else {
            lemma_keep_append(a.drop_first(), b, false);
            assert(keep_lines(a + b, skipping) =~= keep_lines(a, skipping) + keep_lines(
                b,
                skipping_after(a, skipping),
            ));
        }
    }
}

/// No line is a trust header.
pub open spec fn header_free(ls: Seq<Seq<char>>) -> bool {
    forall|i: int| 0 <= i < ls.len() ==> !is_trust_header_spec(#[trigger] ls[i])
}

proof fn lemma_keep_header_free(ls: Seq<Seq<char>>)
    requires
        header_free(ls),
    ensures
        keep_lines(ls, false) == ls,
        skipping_after(ls, false) == false,
    decreases ls.len(),
{
    if ls.len() > 0 {
        assert(!is_trust_header_spec(ls[0]));
        assert(header_free(ls.drop_first())) by {
            assert forall|i: int| 0 <= i < ls.drop_first().len() implies !is_trust_header_spec(
                #[trigger] ls.drop_first()[i],
            ) by {
                assert(ls.drop_first()[i] == ls[i + 1]);
            }
        }
        lemma_keep_header_free(ls.drop_first());
        assert(keep_lines(ls, false) =~= ls);
    }
}

proof fn lemma_keep_is_header_free(ls: Seq<Seq<char>>, skipping: bool)
    ensures
        header_free(keep_lines(ls, skipping)),
        forall|i: int|
            0 <= i < keep_lines(ls, skipping).len() ==> no_newline_all(ls) ==> no_newline(
                #[trigger] keep_lines(ls, skipping)[i],
            ),
    decreases ls.len(),
{
    if ls.len() > 0 {
        let rest = ls.drop_first();
        assert(no_newline_all(ls) ==> no_newline_all(rest)) by {
            if no_newline_all(ls) {
                assert forall|i: int| 0 <= i < rest.len() implies no_newline(#[trigger] rest[i]) by {
                    assert(rest[i] == ls[i + 1]);
                }
            }
        }
        if is_trust_header_spec(ls[0]) {
            lemma_keep_is_header_free(rest, true);
        } else if skipping && !is_table_line(ls[0]) {
            lemma_keep_is_header_free(rest, true);
        } else {
            lemma_keep_is_header_free(rest, false);
            let k = keep_lines(ls, skipping);
            assert forall|i: int| 0 <= i < k.len() implies !is_trust_header_spec(#[trigger] k[i]) by {
                if i > 0 {
                    assert(k[i] == keep_lines(rest, false)[i - 1]);
                }
            }
            assert forall|i: int| 0 <= i < k.len() && no_newline_all(ls) implies no_newline(
                #[trigger] k[i],
            ) by {
                if i > 0 {
                    assert(k[i] == keep_lines(rest, false)[i - 1]);
                } else {
                    assert(no_newline(ls[0]));
                }
            }
        }
    }
}

/// No line holds a `'\n'`.
pub open spec fn no_newline_all(ls: Seq<Seq<char>>) -> bool {
    forall|i: int| 0 <= i < ls.len() ==> no_newline(#[trigger] ls[i])
}

proof fn lemma_lines_have_no_newline(s: Seq<char>)
    ensures
        no_newline_all(lines_of(s)),
    decreases s.len(),
{
    if s.len() > 0 {
        lemma_first_newline(s);
        let i = first_newline(s);
        if i < s.len() {
            let head = s.take(i as int);
            assert(no_newline(head));
            assert(no_newline(strip_cr(head))) by {
                let h = strip_cr(head);
                assert forall|j: int| 0 <= j < h.len() implies #[trigger] h[j] != '\n' by {
                    assert(h[j] == head[j]);
                }
            }
            lemma_lines_have_no_newline(s.skip(i + 1 as int));
            let ls = lines_of(s);
            assert forall|j: int| 0 <= j < ls.len() implies no_newline(#[trigger] ls[j]) by {
                if j > 0 {
                    assert(ls[j] == lines_of(s.skip(i + 1 as int))[j - 1]);
                }
            }
        } else {
            assert(no_newline(s)) by {
                assert forall|j: int| 0 <= j < s.len() implies #[trigger] s[j] != '\n' by {}
            }
        }
    }
}

// ---------------------------------------------------------------------------
// What `without` leaves
// ---------------------------------------------------------------------------

/// The body that `without_spec` ends with a newline.
pub open spec fn without_body(config: Seq<char>) -> Seq<char> {
    trim_end_spec(join_lines(keep_lines(lines_of(config), false)))
}

proof fn lemma_without_body_lines(config: Seq<char>)
    ensures
        header_free(lines_of(without_body(config))),
{
    let k = keep_lines(lines_of(config), false);
    lemma_lines_have_no_newline(config);
    lemma_keep_is_header_free(lines_of(config), false);
    assert(no_newline_all(k));
    let j = join_lines(k);
    lemma_trim_end_shape(j);
    let t = without_body(config);
    let p = t.len() as int;
    lemma_lines_of_prefix(j, p);
    lemma_lines_of_join(k);
    let lt = lines_of(t);
    assert forall|i: int| 0 <= i < lt.len() implies !is_trust_header_spec(#[trigger] lt[i]) by {
        assert(lt[i] == lines_of(j.take(p))[i]);
        assert(trims_like_some(lines_of(j.take(p))[i], lines_of(j)));
        let a = choose|a: int|
            0 <= a < lines_of(j).len() && trim_spec(lines_of(j.take(p))[i]) == trim_spec(
                #[trigger] lines_of(j)[a],
            );
        let b = choose|b: int| 0 <= b < k.len() && trim_spec(lines_of(j)[a]) == trim_spec(k[b]);
        assert(!is_trust_header_spec(k[b]));
    }
}

proof fn lemma_without_shape(config: Seq<char>)
    ensures
        without_spec(config).len() == 0 || (without_body(config).len() > 0 && without_spec(config)
            == without_body(config).push('\n') && !is_ws(without_body(config).last())
            && lines_of(without_spec(config)) == lines_of(without_body(config))),
{
    let t = without_body(config);
    lemma_trim_end_shape(join_lines(keep_lines(lines_of(config), false)));
    if t.len() > 0 {
        reveal_strlit("\n");
        assert(without_spec(config) =~= t.push('\n'));
        lemma_lines_push_newline(t);
    }
}

/// Removing the trust tables leaves no line that opens one.
pub proof fn law_without_leaves_no_trust_header(config: Seq<char>)
    ensures
        header_free(lines_of(without_spec(config))),
{
    lemma_without_shape(config);
    lemma_without_body_lines(config);
}

/// Removing the trust tables a second time changes nothing, for every
/// configuration without a carriage return, and more widely wherever the
/// first removal left no `"\r\n"` (`str::lines` would drop the `'\r'` of one).
pub proof fn law_without_is_idempotent(config: Seq<char>)
    requires
        !config.contains('\r') || !has_crlf(without_spec(config)),
    ensures
        without_spec(without_spec(config)) == without_spec(config),
{
    if config.contains('\r') == false {
        law_no_carriage_return_leaves_no_crlf(config);
    }
    let w = without_spec(config);
    lemma_without_shape(config);
    if w.len() == 0 {
        assert(lines_of(w) =~= Seq::<Seq<char>>::empty());
        assert(without_spec(w) =~= w);
    } else {
        let t = without_body(config);
        lemma_without_body_lines(config);
        lemma_keep_header_free(lines_of(t));
        assert(!has_crlf(t)) by {
            if has_crlf(t) {
                let j = choose|j: int|
                    0 <= j < t.len() - 1 && t[j] == '\r' && #[trigger] t[j + 1] == '\n';
                assert(w[j] == t[j]);
                assert(w[j + 1] == t[j + 1]);
            }
        }
        lemma_join_lines_of(t);
        assert(trim_end_spec(t) == t);
        reveal_strlit("\n");
        assert(without_spec(w) =~= t + "\n"@);
    }
}

/// No character of `s` is a carriage return.
pub open spec fn no_cr(s: Seq<char>) -> bool {
    forall|i: int| 0 <= i < s.len() ==> #[trigger] s[i] != '\r'
}

/// No line holds a carriage return.
pub open spec fn no_cr_all(ls: Seq<Seq<char>>) -> bool {
    forall|i: int| 0 <= i < ls.len() ==> no_cr(#[trigger] ls[i])
}

proof fn lemma_lines_no_cr(s: Seq<char>)
    requires
        no_cr(s),
    ensures
        no_cr_all(lines_of(s)),
    decreases s.len(),
{
    if s.len() > 0 {
        lemma_first_newline(s);
        let i = first_newline(s);
        if i < s.len() {
            let head = s.take(i as int);
            assert(no_cr(strip_cr(head))) by {
                let h = strip_cr(head);
                assert forall|j: int| 0 <= j < h.len() implies #[trigger] h[j] != '\r' by {
                    assert(h[j] == head[j]);
                    assert(head[j] == s[j]);
                }
            }
            let rest = s.skip(i + 1 as int);
            assert(no_cr(rest)) by {
                assert forall|j: int| 0 <= j < rest.len() implies #[trigger] rest[j] != '\r' by {
                    assert(rest[j] == s[j + i + 1]);
                }
            }
            lemma_lines_no_cr(rest);
            let ls = lines_of(s);
            assert forall|j: int| 0 <= j < ls.len() implies no_cr(#[trigger] ls[j]) by {
                if j > 0 {
                    assert(ls[j] == lines_of(rest)[j - 1]);
                }
            }
        }
    }
}

proof fn lemma_keep_no_cr(ls: Seq<Seq<char>>, skipping: bool)
    requires
        no_cr_all(ls),
    ensures
        no_cr_all(keep_lines(ls, skipping)),
    decreases ls.len(),
{
    if ls.len() > 0 {
        let rest = ls.drop_first();
        assert forall|i: int| 0 <= i < rest.len() implies no_cr(#[trigger] rest[i]) by {
            assert(rest[i] == ls[i + 1]);
        }
        lemma_keep_no_cr(rest, true);
        lemma_keep_no_cr(rest, false);
        let k = keep_lines(ls, skipping);
        if !is_trust_header_spec(ls[0]) && !(skipping && !is_table_line(ls[0])) {
            assert forall|i: int| 0 <= i < k.len() implies no_cr(#[trigger] k[i]) by {
                if i > 0 {
                    assert(k[i] == keep_lines(rest, false)[i - 1]);
                } else {
                    assert(k[0] == ls[0]);
                }
            }
        }
    }
}

proof fn lemma_join_no_cr(ls: Seq<Seq<char>>)
    requires
        no_cr_all(ls),
    ensures
        no_cr(join_lines(ls)),
    decreases ls.len(),
{
    if ls.len() > 1 {
        let rest = ls.drop_first();
        assert forall|i: int| 0 <= i < rest.len() implies no_cr(#[trigger] rest[i]) by {
            assert(rest[i] == ls[i + 1]);
        }
        lemma_join_no_cr(rest);
        let j = join_lines(ls);
        let a = ls[0] + seq!['\n'];
        assert(no_cr(ls[0]));
        assert forall|i: int| 0 <= i < j.len() implies #[trigger] j[i] != '\r' by {
            if i < ls[0].len() {
                assert(j[i] == ls[0][i]);
            } else if i > ls[0].len() {
                assert(j[i] == join_lines(rest)[i - a.len()]);
            }
        }
    } else if ls.len() == 1 {
        assert(no_cr(ls[0]));
    }
}

/// A configuration without a carriage return keeps none when the trust tables
/// are removed, so removal then leaves no `"\r\n"`: the laws on removing and
/// adding the trust tables in this file hold of every such configuration.
pub proof fn law_no_carriage_return_leaves_no_crlf(config: Seq<char>)
    requires
        !config.contains('\r'),
    ensures
        no_cr(without_spec(config)),
        !has_crlf(without_spec(config)),
{
    assert(no_cr(config)) by {
        assert forall|i: int| 0 <= i < config.len() implies #[trigger] config[i] != '\r' by {
            if config[i] == '\r' {
                assert(config.contains('\r'));
            }
        }
    }
    lemma_lines_no_cr(config);
    lemma_keep_no_cr(lines_of(config), false);
    let j = join_lines(keep_lines(lines_of(config), false));
    lemma_join_no_cr(keep_lines(lines_of(config), false));
    lemma_trim_end_shape(j);
    let t = without_body(config);
    assert(no_cr(t)) by {
        assert forall|i: int| 0 <= i < t.len() implies #[trigger] t[i] != '\r' by {
            assert(t[i] == j[i]);
        }
    }
    let w = without_spec(config);
    reveal_strlit("\n");
    if t.len() > 0 {
        assert(w =~= t.push('\n'));
    } else {
        assert(w =~= Seq::<char>::empty());
    }
    assert(no_cr(w)) by {
        assert forall|i: int| 0 <= i < w.len() implies #[trigger] w[i] != '\r' by {
            if i < t.len() {
                assert(w[i] == t[i]);
            }
        }
    }
    assert(!has_crlf(w)) by {
        if has_crlf(w) {
            let i = choose|i: int| 0 <= i < w.len() - 1 && w[i] == '\r' && #[trigger] w[i + 1] == '\n';
        }
    }
}

// ---------------------------------------------------------------------------
// The trust tables that `with` adds
// ---------------------------------------------------------------------------

/// The header line of one trust table.
pub open spec fn entry_header(event: Seq<char>) -> Seq<char> {
    "[hooks.state.\""@ + trust_key_spec(event) + "\"]"@
}

/// The hash line of one trust table.
pub open spec fn entry_hash_line(event: Seq<char>, action: Seq<char>) -> Seq<char> {
    "trusted_hash = \""@ + trusted_hash_spec(event, action) + "\""@
}

/// The trust tables of `events`, separated by blank lines.
pub open spec fn entry_block(events: Seq<(Seq<char>, Seq<char>)>) -> Seq<char>
    decreases events.len(),
{
    if events.len() <= 1 {
        trust_entry_spec(events[0].0, events[0].1)
    } else {
        trust_entry_spec(events[0].0, events[0].1) + "\n"@ + entry_block(events.drop_first())
    }
}

proof fn lemma_add_entries_block(out: Seq<char>, events: Seq<(Seq<char>, Seq<char>)>)
    requires
        events.len() > 0,
    ensures
        add_entries(out, events) == (if out.len() == 0 {
            out
        } else {
            out + "\n"@
        }) + entry_block(events),
    decreases events.len(),
{
    let sep = if out.len() == 0 {
        out
    } else {
        out + "\n"@
    };
    let e = trust_entry_spec(events[0].0, events[0].1);
    if events.len() == 1 {
        assert(events.drop_first().len() == 0);
        assert(add_entries(sep + e, events.drop_first()) == sep + e);
        assert(add_entries(out, events) == add_entries(sep + e, events.drop_first()));
        assert(entry_block(events) == e);
    } else {
        let out2 = sep + e;
        assert(add_entries(out, events) == add_entries(out2, events.drop_first()));
        reveal_strlit("\"\n");
        assert(e.len() > 0) by {
            assert(e == ("[hooks.state.\""@ + trust_key_spec(events[0].0)
                + "\"]\ntrusted_hash = \""@ + trusted_hash_spec(events[0].0, events[0].1))
                + "\"\n"@);
        }
        lemma_add_entries_block(out2, events.drop_first());
        assert(out2.len() > 0);
        assert(entry_block(events) == e + "\n"@ + entry_block(events.drop_first()));
        assert(out2 + "\n"@ + entry_block(events.drop_first()) =~= sep + entry_block(events));
    }
}

/// The events name no `'\n'`.
pub open spec fn events_ok(events: Seq<(Seq<char>, Seq<char>)>) -> bool {
    forall|i: int| 0 <= i < events.len() ==> no_newline(#[trigger] events[i].0)
}

proof fn lemma_plugin_id_no_newline()
    ensures
        no_newline(plugin_id_spec()),
{
    reveal_strlit("herdr");
    reveal_strlit("@");
    reveal_strlit("local");
    assert(plugin_id_spec() =~= seq!['h', 'e', 'r', 'd', 'r', '@', 'l', 'o', 'c', 'a', 'l']);
}

proof fn lemma_no_newline_concat(a: Seq<char>, b: Seq<char>)
    requires
        no_newline(a),
        no_newline(b),
    ensures
        no_newline(a + b),
{
    assert forall|i: int| 0 <= i < (a + b).len() implies #[trigger] (a + b)[i] != '\n' by {
        if i < a.len() {
            assert((a + b)[i] == a[i]);
        } else {
            assert((a + b)[i] == b[i - a.len()]);
        }
    }
}

/// The lines of one trust table, and how they read.
proof fn lemma_entry_lines(event: Seq<char>, action: Seq<char>)
    requires
        no_newline(event),
    ensures
        trust_entry_spec(event, action) == entry_header(event) + seq!['\n'] + entry_hash_line(
            event,
            action,
        ) + seq!['\n'],
        lines_of(trust_entry_spec(event, action)) == seq![
            entry_header(event),
            entry_hash_line(event, action),
        ],
        is_trust_header_spec(entry_header(event)),
        !is_trust_header_spec(entry_hash_line(event, action)),
        !is_table_line(entry_hash_line(event, action)),
{
    let h = entry_header(event);
    let t = entry_hash_line(event, action);
    let key = trust_key_spec(event);
    let hash = trusted_hash_spec(event, action);
    reveal_strlit("[hooks.state.\"");
    reveal_strlit("\"]");
    reveal_strlit("\"]\ntrusted_hash = \"");
    reveal_strlit("trusted_hash = \"");
    reveal_strlit("\"\n");
    reveal_strlit("\"");
    reveal_strlit(":hooks.json:");
    reveal_strlit(":0:0");
    reveal_strlit(":");
    reveal_strlit("sha256:");
    assert(trust_entry_spec(event, action) =~= h + seq!['\n'] + t + seq!['\n']);
    // both lines are free of newlines
    lemma_plugin_id_no_newline();
    lemma_snake_no_newline(event);
    let s1 = ":hooks.json:"@;
    let s2 = ":0:0"@;
    assert(no_newline(s1));
    assert(no_newline(s2));
    lemma_no_newline_concat(plugin_id_spec(), s1);
    lemma_no_newline_concat(plugin_id_spec() + s1, snake_case_spec(event));
    lemma_no_newline_concat(plugin_id_spec() + s1 + snake_case_spec(event), s2);
    assert(no_newline(key));
    lemma_no_newline_concat("[hooks.state.\""@, key);
    lemma_no_newline_concat("[hooks.state.\""@ + key, "\"]"@);
    assert(no_newline(h));
    let hex = hex_lower(
        sha256_spec(vstd::utf8::encode_utf8(json_compact_text(trust_identity(event, action)))),
    );
    lemma_hex_lower_chars(
        sha256_spec(vstd::utf8::encode_utf8(json_compact_text(trust_identity(event, action)))),
    );
    assert(no_newline(hex)) by {
        assert forall|i: int| 0 <= i < hex.len() implies #[trigger] hex[i] != '\n' by {
            assert(is_hex_char(hex[i]));
        }
    }
    lemma_no_newline_concat("sha256:"@, hex);
    lemma_no_newline_concat("trusted_hash = \""@, hash);
    lemma_no_newline_concat("trusted_hash = \""@ + hash, "\""@);
    assert(no_newline(t));
    // the lines
    assert(h.last() == ']');
    assert(t.last() == '"');
    lemma_lines_cons(h, t + seq!['\n']);
    assert(t + seq!['\n'] =~= t + seq!['\n'] + Seq::<char>::empty());
    lemma_lines_cons(t, Seq::<char>::empty());
    assert(lines_of(Seq::<char>::empty()) =~= Seq::<Seq<char>>::empty());
    assert(h + seq!['\n'] + t + seq!['\n'] =~= h + seq!['\n'] + (t + seq!['\n']));
    assert(lines_of(trust_entry_spec(event, action)) =~= seq![h, t]);
    // the header opens a trust table
    assert(h[0] == '[');
    lemma_trim_fixed(h);
    assert(trust_header_prefix().is_prefix_of(h)) by {
        let p = trust_header_prefix();
        assert(h =~= p + (":hooks.json:"@.skip(1) + snake_case_spec(event) + s2 + "\"]"@)) by {
            assert(":hooks.json:"@ =~= ":"@ + ":hooks.json:"@.skip(1));
        }
        assert(h.subrange(0, p.len() as int) =~= p);
    }
    // the hash line does not
    assert(t[0] == 't');
    lemma_trim_fixed(t);
    assert(trim_start_spec(t) == t);
    assert(!trust_header_prefix().is_prefix_of(t)) by {
        let p = trust_header_prefix();
        assert(p[0] == '[');
        if p.is_prefix_of(t) {
            assert(t.subrange(0, p.len() as int)[0] == p[0]);
        }
    }
}

proof fn lemma_blank_line()
    ensures
        !is_trust_header_spec(Seq::<char>::empty()),
        !is_table_line(Seq::<char>::empty()),
{
    let p = trust_header_prefix();
    reveal_strlit("[hooks.state.\"");
    assert(p.len() > 0);
}

/// Reading a run of trust tables keeps no line, whatever came before.
proof fn lemma_keep_block(events: Seq<(Seq<char>, Seq<char>)>, skipping: bool)
    requires
        events.len() > 0,
        events_ok(events),
    ensures
        keep_lines(lines_of(entry_block(events)), skipping) == Seq::<Seq<char>>::empty(),
        skipping_after(lines_of(entry_block(events)), skipping),
    decreases events.len(),
{
    let e = events[0];
    assert(no_newline(e.0));
    lemma_entry_lines(e.0, e.1);
    let h = entry_header(e.0);
    let t = entry_hash_line(e.0, e.1);
    let two = seq![h, t];
    assert(two.drop_first() =~= seq![t]);
    assert(seq![t].drop_first() =~= Seq::<Seq<char>>::empty());
    let empty = Seq::<Seq<char>>::empty();
    assert(keep_lines(empty, true) =~= empty);
    assert(skipping_after(empty, true));
    assert(keep_lines(seq![t], true) =~= empty);
    assert(skipping_after(seq![t], true));
    assert(keep_lines(two, skipping) =~= empty);
    assert(skipping_after(two, skipping));
    if events.len() > 1 {
        let rest = events.drop_first();
        assert(events_ok(rest)) by {
            assert forall|i: int| 0 <= i < rest.len() implies no_newline(#[trigger] rest[i].0) by {
                assert(rest[i] == events[i + 1]);
            }
        }
        lemma_keep_block(rest, true);
        let entry = trust_entry_spec(e.0, e.1);
        reveal_strlit("\n");
        assert(entry.last() == '\n');
        assert(entry_block(events) == entry + ("\n"@ + entry_block(rest)));
        lemma_lines_append(entry, "\n"@ + entry_block(rest));
        assert("\n"@ + entry_block(rest) =~= Seq::<char>::empty() + seq!['\n'] + entry_block(rest));
        lemma_lines_cons(Seq::<char>::empty(), entry_block(rest));
        let tail = lines_of(entry_block(rest));
        let blank = seq![Seq::<char>::empty()];
        assert(lines_of(entry_block(events)) =~= two + (blank + tail));
        lemma_keep_append(two, blank + tail, skipping);
        lemma_blank_line();
        lemma_keep_append(blank, tail, true);
        assert(blank.drop_first() =~= Seq::<Seq<char>>::empty());
        assert(keep_lines(Seq::<Seq<char>>::empty(), true) =~= Seq::<Seq<char>>::empty());
        assert(skipping_after(Seq::<Seq<char>>::empty(), true));
        assert(keep_lines(blank, true) =~= Seq::<Seq<char>>::empty());
        assert(skipping_after(blank, true));
        lemma_skipping_after_append(two, blank + tail, skipping);
        lemma_skipping_after_append(blank, tail, true);
    } else {
        assert(entry_block(events) == trust_entry_spec(e.0, e.1));
    }
}

proof fn lemma_skipping_after_append(a: Seq<Seq<char>>, b: Seq<Seq<char>>, skipping: bool)
    ensures
        skipping_after(a + b, skipping) == skipping_after(b, skipping_after(a, skipping)),
    decreases a.len(),
{
    if a.len() == 0 {
        assert(a + b =~= b);
    } else {
        assert((a + b)[0] == a[0]);
        assert((a + b).drop_first() =~= a.drop_first() + b);
        if is_trust_header_spec(a[0]) {
            lemma_skipping_after_append(a.drop_first(), b, true);
        } else if skipping && !is_table_line(a[0]) {
            lemma_skipping_after_append(a.drop_first(), b, true);
        } else {
            lemma_skipping_after_append(a.drop_first(), b, false);
        }
    }
}

proof fn lemma_hook_events_ok()
    ensures
        events_ok(trae_hook_events_spec()),
        trae_hook_events_spec().len() > 0,
{
    reveal_strlit("SessionStart");
    reveal_strlit("UserPromptSubmit");
    reveal_strlit("PreToolUse");
    reveal_strlit("PostToolUse");
    reveal_strlit("PostToolUseFailure");
    reveal_strlit("PermissionRequest");
    reveal_strlit("Stop");
    let evs = trae_hook_events_spec();
    assert forall|i: int| 0 <= i < evs.len() implies no_newline(#[trigger] evs[i].0) by {
        let e = evs[i].0;
        assert forall|j: int| 0 <= j < e.len() implies #[trigger] e[j] != '\n' by {
            if i == 0 {
            } else if i == 1 {
            } else if i == 2 {
            } else if i == 3 {
            } else if i == 4 {
            } else if i == 5 {
            } else {
            }
        }
    }
}

/// Removing the trust tables after adding them gives what removing them
/// alone gives, for every configuration without a carriage return, and more
/// widely wherever removal leaves no `"\r\n"`.
pub proof fn law_without_undoes_with(config: Seq<char>)
    requires
        !config.contains('\r') || !has_crlf(without_spec(config)),
    ensures
        without_spec(with_spec(config)) == without_spec(config),
{
    if config.contains('\r') == false {
        law_no_carriage_return_leaves_no_crlf(config);
    }
    let w = without_spec(config);
    let evs = trae_hook_events_spec();
    lemma_hook_events_ok();
    lemma_add_entries_block(w, evs);
    let block = entry_block(evs);
    lemma_without_shape(config);
    reveal_strlit("\n");
    if w.len() == 0 {
        assert(with_spec(config) == block);
        lemma_keep_block(evs, false);
        assert(join_lines(Seq::<Seq<char>>::empty()) =~= Seq::<char>::empty());
        assert(without_spec(with_spec(config)) =~= w);
    } else {
        let t = without_body(config);
        law_without_is_idempotent(config);
        lemma_without_body_lines(config);
        lemma_keep_header_free(lines_of(t));
        assert(w.last() == '\n');
        assert(with_spec(config) == w + ("\n"@ + block));
        lemma_lines_append(w, "\n"@ + block);
        assert("\n"@ + block =~= Seq::<char>::empty() + seq!['\n'] + block);
        lemma_lines_cons(Seq::<char>::empty(), block);
        let blank = seq![Seq::<char>::empty()];
        let tail = lines_of(block);
        let lw = lines_of(w);
        assert(lw == lines_of(t));
        assert(lines_of(with_spec(config)) =~= lw + (blank + tail));
        lemma_keep_append(lw, blank + tail, false);
        lemma_keep_append(blank, tail, false);
        lemma_blank_line();
        assert(blank.drop_first() =~= Seq::<Seq<char>>::empty());
        assert(keep_lines(Seq::<Seq<char>>::empty(), false) =~= Seq::<Seq<char>>::empty());
        assert(!skipping_after(Seq::<Seq<char>>::empty(), false));
        assert(keep_lines(blank, false) =~= blank);
        assert(!skipping_after(blank, false));
        lemma_keep_block(evs, false);
        let kept = keep_lines(lines_of(with_spec(config)), false);
        assert(kept =~= lw.push(Seq::<char>::empty()));
        lemma_join_push(lw, Seq::<char>::empty());
        assert(!has_crlf(t)) by {
            if has_crlf(t) {
                let j = choose|j: int|
                    0 <= j < t.len() - 1 && t[j] == '\r' && #[trigger] t[j + 1] == '\n';
                assert(w[j] == t[j]);
                assert(w[j + 1] == t[j + 1]);
            }
        }
        lemma_join_lines_of(t);
        lemma_lines_nonempty(t);
        assert(join_lines(kept) =~= t + seq!['\n'] + Seq::<char>::empty());
        assert(all_ws(seq!['\n']));
        lemma_trim_end_append_ws(t, seq!['\n']);
        assert(t + seq!['\n'] + Seq::<char>::empty() =~= t + seq!['\n']);
        assert(trim_end_spec(t) == t);
        assert(without_spec(with_spec(config)) =~= t + "\n"@);
    }
}

/// Adding the trust tables twice gives what adding them once gives, so a
/// reinstall never piles up trust tables: for every configuration without a
/// carriage return, and more widely wherever removal leaves no `"\r\n"`.
pub proof fn law_with_is_idempotent(config: Seq<char>)
    requires
        !config.contains('\r') || !has_crlf(without_spec(config)),
    ensures
        with_spec(with_spec(config)) == with_spec(config),
{
    if config.contains('\r') == false {
        law_no_carriage_return_leaves_no_crlf(config);
    }
    law_without_undoes_with(config);
}

/// Every trust table that `with_trae_trust_entries` writes opens with a line
/// that `is_trae_trust_header` recognizes, followed by one line that opens
/// no table, so removal takes the whole table out again.
pub proof fn law_written_trust_headers_are_recognized()
    ensures
        forall|k: int|
            0 <= k < trae_hook_events_spec().len() ==> {
                let ls = lines_of(
                    trust_entry_spec(
                        (#[trigger] trae_hook_events_spec()[k]).0,
                        trae_hook_events_spec()[k].1,
                    ),
                );
                ls.len() == 2 && is_trust_header_spec(ls[0]) && !is_table_line(ls[1])
            },
{
    lemma_hook_events_ok();
    let evs = trae_hook_events_spec();
    assert forall|k: int| 0 <= k < evs.len() implies {
        let ls = lines_of(trust_entry_spec((#[trigger] evs[k]).0, evs[k].1));
        ls.len() == 2 && is_trust_header_spec(ls[0]) && !is_table_line(ls[1])
    } by {
        assert(no_newline(evs[k].0));
        lemma_entry_lines(evs[k].0, evs[k].1);
    }
}

/// Removing the trust tables from a file that has none keeps every line:
/// the file comes back joined by newlines, trailing whitespace dropped and
/// one final newline added. A file already in that shape (ending in one
/// newline after a character that is not whitespace, with no `"\r\n"`)
/// comes back unchanged.
pub proof fn law_without_keeps_files_without_trust_tables(config: Seq<char>)
    requires
        header_free(lines_of(config)),
    ensures
        without_spec(config) == ({
            let b = trim_end_spec(join_lines(lines_of(config)));
            if b.len() == 0 {
                Seq::<char>::empty()
            } else {
                b + "\n"@
            }
        }),
        (config.len() == 0 || (config.len() >= 2 && config.last() == '\n' && !is_ws(
            config[config.len() - 2],
        ) && !has_crlf(config))) ==> without_spec(config) == config,
{
    lemma_keep_header_free(lines_of(config));
    if config.len() >= 2 && config.last() == '\n' && !is_ws(config[config.len() - 2]) && !has_crlf(
        config,
    ) {
        let t = config.drop_last();
        assert(t.push('\n') =~= config);
        assert(t.last() == config[config.len() - 2]);
        lemma_lines_push_newline(t);
        assert(!has_crlf(t)) by {
            if has_crlf(t) {
                let j = choose|j: int|
                    0 <= j < t.len() - 1 && t[j] == '\r' && #[trigger] t[j + 1] == '\n';
                assert(config[j] == t[j]);
                assert(config[j + 1] == t[j + 1]);
            }
        }
        lemma_join_lines_of(t);
        assert(trim_end_spec(t) == t);
        reveal_strlit("\n");
        assert(without_spec(config) =~= config);
    } else if config.len() == 0 {
        assert(lines_of(config) =~= Seq::<Seq<char>>::empty());
    }
}

// ---------------------------------------------------------------------------
// The plugin registration, the plugin's hooks, the CLI programs
// ---------------------------------------------------------------------------

proof fn lemma_plugin_table_text()
    ensures
        plugin_table_spec() == "[plugins.\"herdr@local\"]"@,
{
    reveal_strlit("[plugins.\"");
    reveal_strlit("herdr");
    reveal_strlit("@");
    reveal_strlit("local");
    reveal_strlit("\"]");
    reveal_strlit("[plugins.\"herdr@local\"]");
    assert(TRAE_PLUGIN_NAME@ == "herdr"@);
    assert(TRAE_PLUGIN_MARKETPLACE@ == "local"@);
    assert(plugin_table_spec() =~= "[plugins.\"herdr@local\"]"@);
}

/// `traecli.toml` records the herdr plugin exactly when one of its lines,
/// trimmed, is `[plugins."herdr@local"]`, whatever lines (other tables
/// among them) stand before it. In particular a config with that line at
/// index `i` always counts as registered.
pub proof fn law_registered_iff_some_line_is_the_plugin_table(config: Seq<char>, i: int)
    ensures
        plugin_registered_spec(config) <==> exists|j: int|
            0 <= j < lines_of(config).len() && trim_spec(#[trigger] lines_of(config)[j])
                == "[plugins.\"herdr@local\"]"@,
        0 <= i < lines_of(config).len() && trim_spec(lines_of(config)[i])
            == "[plugins.\"herdr@local\"]"@ ==> plugin_registered_spec(config),
{
    lemma_plugin_table_text();
}

/// The plugin's `hooks.json` holds, for the `k`-th Trae hook event and its
/// action, exactly one group with one handler: the command that reports
/// that action and the hook timeout, which are the command and timeout of
/// the identity whose hash the trust entry of that event records.
pub proof fn law_plugin_hooks_run_the_trusted_handlers()
    ensures
        trae_plugin_hooks_spec() matches JsonView::Object(top) && top.len() == 1 && top[0].0
            == "hooks"@ && (top[0].1 matches JsonView::Object(hs) && hs.len()
            == trae_hook_events_spec().len() && forall|k: int|
            0 <= k < hs.len() ==> {
                let ev = #[trigger] trae_hook_events_spec()[k];
                &&& hs[k].0 == ev.0
                &&& hs[k].1 == JsonView::Array(
                    seq![
                        JsonView::Object(
                            seq![
                                (
                                    "hooks"@,
                                    JsonView::Array(
                                        seq![
                                            command_handler_spec(
                                                plugin_hook_command_spec(ev.1),
                                                TRAE_HOOK_TIMEOUT_SEC,
                                            ),
                                        ],
                                    ),
                                ),
                            ],
                        ),
                    ],
                )
                &&& trust_identity(ev.0, ev.1) matches JsonView::Object(id) && id[1].1
                    matches JsonView::Array(handlers) && handlers[0] matches JsonView::Object(h)
                    && h[1] == ("command"@, JsonView::Str(plugin_hook_command_spec(ev.1))) && h[2]
                    == ("timeout"@, JsonView::UInt(TRAE_HOOK_TIMEOUT_SEC))
            }),
{
    let evs = trae_hook_events_spec();
    let f = |e: (Seq<char>, Seq<char>)| (e.0, crate::trae::trae_event_groups_spec(e.1));
    let hs = evs.map_values(f);
    assert forall|k: int| 0 <= k < hs.len() implies hs[k] == f(#[trigger] evs[k]) by {}
}

/// An unset `HERDR_TRAE_CLI` is treated as an empty one: the programs tried
/// are then `traex`, `traecli` and `trae-cli`, followed, where the home
/// directory `h` is known, by the same names under `h/.local/bin`. A set,
/// non-empty value is the only program tried.
pub proof fn law_unset_trae_cli_variable_falls_back_to_the_names(
    home: Option<Seq<char>>,
    value: Seq<char>,
)
    ensures
        trae_cli_candidates_spec(None, home) == trae_cli_candidates_spec(Some(seq![]), home),
        trae_cli_candidates_spec(None, home).len() >= 3,
        trae_cli_candidates_spec(None, home).take(3) == seq!["traex"@, "traecli"@, "trae-cli"@],
        home is None ==> trae_cli_candidates_spec(None, home).len() == 3,
        home matches Some(h) ==> trae_cli_candidates_spec(None, home) == seq![
            "traex"@,
            "traecli"@,
            "trae-cli"@,
            join_path_spec(join_path_spec(join_path_spec(h, ".local"@), "bin"@), "traex"@),
            join_path_spec(join_path_spec(join_path_spec(h, ".local"@), "bin"@), "traecli"@),
            join_path_spec(join_path_spec(join_path_spec(h, ".local"@), "bin"@), "trae-cli"@),
        ],
        value.len() > 0 ==> trae_cli_candidates_spec(Some(value), home) == seq![value],
{
    let c = trae_cli_candidates_spec(None, home);
    let names = crate::names::trae_cli_names_spec();
    assert(c.take(3) =~= names);
    if let Some(h) = home {
        assert(c =~= seq![
            "traex"@,
            "traecli"@,
            "trae-cli"@,
            join_path_spec(join_path_spec(join_path_spec(h, ".local"@), "bin"@), "traex"@),
            join_path_spec(join_path_spec(join_path_spec(h, ".local"@), "bin"@), "traecli"@),
            join_path_spec(join_path_spec(join_path_spec(h, ".local"@), "bin"@), "trae-cli"@),
        ]);
    }
}

} // verus!
