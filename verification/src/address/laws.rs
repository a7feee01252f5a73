//! What is written of a version 6 address reads back as that address.

use vstd::prelude::*;
use vstd::string::*;
use crate::address::{
    all_zero, dotted_groups, dotted_text, from_groups, group_at, groups_at, groups_of,
    groups_text, ip_text, ipv4_at, ipv6_at, lemma_dotted_reads_back, lemma_v4_reads_back,
    longest_zero_run, mapped_v4, parse_ip_spec, parse_socket_spec, port_after, scope_at,
    socket_text, bracketed_at, v6_text, zero_groups, zero_run_from, IpAddress, SocketAddress,
};
use crate::text::{
    decimal_text, digits_end, hex_end, hex_text, is_digit, is_hex, lemma_decimal_text,
    lemma_digits_end, lemma_digits_end_at, lemma_hex_end_at, lemma_hex_text,
    lemma_port_reads_back,
};

verus! {

/// Groups written one after the other, each after a colon.
pub open spec fn colon_groups(gs: Seq<u16>) -> Seq<char>
    decreases gs.len(),
{
    if gs.len() == 0 {
        Seq::empty()
    } else {
        seq![':'] + hex_text(gs[0] as nat) + colon_groups(gs.drop_first())
    }
}

/// Where reading groups stops at the index `p`: at the end of the text,
/// before a double colon, or before what is neither a colon nor a
/// hexadecimal digit.
pub open spec fn groups_stop(s: Seq<char>, p: int) -> bool {
    ||| p == s.len()
    ||| (0 <= p && p + 1 < s.len() && s[p] == ':' && s[p + 1] == ':')
    ||| (0 <= p < s.len() && s[p] != ':' && !is_hex(s[p]))
}

/// One more group after the others is one more colon and group after their
/// text.
pub proof fn lemma_colon_groups_push(gs: Seq<u16>, g: u16)
    ensures
        colon_groups(gs.push(g)) == colon_groups(gs) + seq![':'] + hex_text(g as nat),
    decreases gs.len(),
{
    if gs.len() == 0 {
        assert(gs.push(g).drop_first() =~= Seq::<u16>::empty());
        assert(gs.push(g)[0] == g);
        assert(colon_groups(gs.push(g).drop_first()) =~= Seq::<char>::empty());
        assert(colon_groups(gs) =~= Seq::<char>::empty());
        assert(colon_groups(gs.push(g)) =~= seq![':'] + hex_text(g as nat) + colon_groups(
            gs.push(g).drop_first(),
        ));
        assert(colon_groups(gs.push(g)) =~= colon_groups(gs) + seq![':'] + hex_text(g as nat));
    } else {
        lemma_colon_groups_push(gs.drop_first(), g);
        assert(gs.push(g).drop_first() =~= gs.drop_first().push(g));
        assert(gs.push(g)[0] == gs[0]);
        assert(colon_groups(gs.push(g)) =~= colon_groups(gs) + seq![':'] + hex_text(g as nat));
    }
}

/// The text of groups is the first group, then each other after a colon.
pub proof fn lemma_groups_text_split(gs: Seq<u16>)
    requires
        gs.len() > 0,
    ensures
        groups_text(gs) == hex_text(gs[0] as nat) + colon_groups(gs.drop_first()),
    decreases gs.len(),
{
    if gs.len() == 1 {
        assert(gs.drop_first() =~= Seq::<u16>::empty());
        assert(groups_text(gs) =~= hex_text(gs[0] as nat) + colon_groups(gs.drop_first()));
    } else {
        let front = gs.drop_last();
        lemma_groups_text_split(front);
        lemma_colon_groups_push(front.drop_first(), gs.last());
        assert(gs.drop_first() =~= front.drop_first().push(gs.last()));
        assert(front[0] == gs[0]);
        assert(groups_text(gs) =~= hex_text(gs[0] as nat) + colon_groups(gs.drop_first()));
    }
}

/// The text of groups holds hexadecimal digits and colons only.
pub proof fn lemma_colon_groups_chars(gs: Seq<u16>)
    ensures
        forall|k: int|
            0 <= k < colon_groups(gs).len() ==> {
                let c = #[trigger] colon_groups(gs)[k];
                c == ':' || is_hex(c)
            },
    decreases gs.len(),
{
    if gs.len() > 0 {
        lemma_colon_groups_chars(gs.drop_first());
        lemma_hex_text(gs[0] as nat);
        let h = hex_text(gs[0] as nat);
        let r = colon_groups(gs.drop_first());
        let t = colon_groups(gs);
        assert forall|k: int| 0 <= k < t.len() implies {
            let c = #[trigger] t[k];
            c == ':' || is_hex(c)
        } by {
            if k == 0 {
            } else if k < 1 + h.len() {
                assert(t[k] == h[k - 1]);
            } else {
                assert(t[k] == r[k - 1 - h.len()]);
            }
        }
    }
}

/// Where no dot stands from `start` on, no dotted address is read there.
pub proof fn lemma_no_dotted(s: Seq<char>, start: int)
    requires
        0 <= start <= s.len(),
        forall|k: int| start <= k < s.len() ==> s[k] != '.',
    ensures
        ipv4_at(s, start) is None,
{
    lemma_digits_end(s, start);
}

/// Where the digits of a group stand at `i` and no hexadecimal digit
/// follows them, the group is read there.
pub proof fn lemma_group_reads_back(s: Seq<char>, i: int, g: u16)
    requires
        0 <= i,
        i + hex_text(g as nat).len() <= s.len(),
        s.subrange(i, i + hex_text(g as nat).len()) == hex_text(g as nat),
        i + hex_text(g as nat).len() == s.len() || !is_hex(s[i + hex_text(g as nat).len()]),
    ensures
        group_at(s, i) == Some((g, i + hex_text(g as nat).len())),
{
    let t = hex_text(g as nat);
    let e = i + t.len();
    lemma_hex_text(g as nat);
    assert forall|k: int| i <= k < e implies is_hex(#[trigger] s[k]) by {
        assert(s[k] == s.subrange(i, e)[k - i]);
    }
    lemma_hex_end_at(s, i, e);
}

/// Groups that stand at `pos`, each after a colon, are read there as they
/// are, where reading stops after them and no dot stands in the text.
#[verifier::rlimit(40)]
pub proof fn lemma_colon_groups_read_back(s: Seq<char>, pos: int, i: int, limit: int, gs: Seq<u16>)
    requires
        1 <= i,
        i + gs.len() <= limit,
        0 <= pos,
        pos + colon_groups(gs).len() <= s.len(),
        s.subrange(pos, pos + colon_groups(gs).len()) == colon_groups(gs),
        groups_stop(s, pos + colon_groups(gs).len()),
        forall|k: int| pos <= k < s.len() ==> s[k] != '.',
    ensures
        groups_at(s, pos, i, limit) == (gs, pos + colon_groups(gs).len(), false),
    decreases gs.len(),
{
    let text = colon_groups(gs);
    if gs.len() == 0 {
        if i < limit {
            if pos < s.len() && s[pos] == ':' {
                lemma_no_dotted(s, pos + 1);
                assert(hex_end(s, pos + 1) == pos + 1);
            }
        }
        assert(groups_at(s, pos, i, limit).0 =~= gs);
    } else {
        let h = hex_text(gs[0] as nat);
        let rest = gs.drop_first();
        let e = pos + 1 + h.len();
        lemma_hex_text(gs[0] as nat);
        lemma_colon_groups_chars(rest);
        assert(text =~= seq![':'] + h + colon_groups(rest));
        assert(s[pos] == s.subrange(pos, pos + text.len())[0]);
        assert(s.subrange(pos + 1, e) =~= h) by {
            assert forall|k: int| 0 <= k < h.len() implies s.subrange(pos + 1, e)[k] == h[k] by {
                assert(s[pos + 1 + k] == s.subrange(pos, pos + text.len())[1 + k]);
            }
        }
        assert(s.subrange(e, e + colon_groups(rest).len()) =~= colon_groups(rest)) by {
            assert forall|k: int| 0 <= k < colon_groups(rest).len() implies s.subrange(
                e,
                e + colon_groups(rest).len(),
            )[k] == colon_groups(rest)[k] by {
                assert(s[e + k] == s.subrange(pos, pos + text.len())[1 + h.len() + k]);
            }
        }
        if rest.len() > 0 {
            assert(colon_groups(rest)[0] == ':');
            assert(s[e] == s.subrange(e, e + colon_groups(rest).len())[0]);
        }
        lemma_group_reads_back(s, pos + 1, gs[0]);
        lemma_no_dotted(s, pos + 1);
        lemma_colon_groups_read_back(s, e, i + 1, limit, rest);
        assert(seq![gs[0]] + rest =~= gs);
    }
}

/// Groups that stand at `pos` with colons between them are read there as
/// they are, where reading stops after them and no dot stands in the text.
#[verifier::rlimit(40)]
pub proof fn lemma_groups_read_back(s: Seq<char>, pos: int, limit: int, gs: Seq<u16>)
    requires
        gs.len() <= limit,
        0 <= pos,
        pos + groups_text(gs).len() <= s.len(),
        s.subrange(pos, pos + groups_text(gs).len()) == groups_text(gs),
        groups_stop(s, pos + groups_text(gs).len()),
        forall|k: int| pos <= k < s.len() ==> s[k] != '.',
    ensures
        groups_at(s, pos, 0, limit) == (gs, pos + groups_text(gs).len(), false),
{
    let text = groups_text(gs);
    if gs.len() == 0 {
        if 0 < limit {
            lemma_no_dotted(s, pos);
            assert(hex_end(s, pos) == pos);
        }
        assert(groups_at(s, pos, 0, limit).0 =~= gs);
    } else {
        let h = hex_text(gs[0] as nat);
        let rest = gs.drop_first();
        let e = pos + h.len();
        lemma_hex_text(gs[0] as nat);
        lemma_groups_text_split(gs);
        assert(text =~= h + colon_groups(rest));
        assert(s.subrange(pos, e) =~= h) by {
            assert forall|k: int| 0 <= k < h.len() implies s.subrange(pos, e)[k] == h[k] by {
                assert(s[pos + k] == s.subrange(pos, pos + text.len())[k]);
            }
        }
        assert(s.subrange(e, e + colon_groups(rest).len()) =~= colon_groups(rest)) by {
            assert forall|k: int| 0 <= k < colon_groups(rest).len() implies s.subrange(
                e,
                e + colon_groups(rest).len(),
            )[k] == colon_groups(rest)[k] by {
                assert(s[e + k] == s.subrange(pos, pos + text.len())[h.len() + k]);
            }
        }
        if rest.len() > 0 {
            assert(colon_groups(rest)[0] == ':');
            assert(s[e] == s.subrange(e, e + colon_groups(rest).len())[0]);
        }
        lemma_group_reads_back(s, pos, gs[0]);
        lemma_no_dotted(s, pos);
        lemma_colon_groups_read_back(s, e, 1, limit, rest);
        assert(seq![gs[0]] + rest =~= gs);
    }
}

/// The text of groups holds hexadecimal digits and colons only, and so no
/// dot.
pub proof fn lemma_groups_text_chars(gs: Seq<u16>)
    ensures
        forall|k: int|
            0 <= k < groups_text(gs).len() ==> {
                let c = #[trigger] groups_text(gs)[k];
                (c == ':' || is_hex(c)) && c != '.'
            },
{
    if gs.len() > 0 {
        lemma_groups_text_split(gs);
        lemma_hex_text(gs[0] as nat);
        lemma_colon_groups_chars(gs.drop_first());
        let h = hex_text(gs[0] as nat);
        let r = colon_groups(gs.drop_first());
        let t = groups_text(gs);
        assert forall|k: int| 0 <= k < t.len() implies {
            let c = #[trigger] t[k];
            (c == ':' || is_hex(c)) && c != '.'
        } by {
            if k < h.len() {
                assert(t[k] == h[k]);
            } else {
                assert(t[k] == r[k - h.len()]);
            }
        }
    }
}

/// A run that the search for groups of zero finds is one: its groups are
/// there and are zero.
pub proof fn lemma_zero_run_from(gs: Seq<u16>, len: int, start: int)
    requires
        0 <= start,
    ensures
        zero_run_from(gs, len, start) matches Some(found) ==> start <= found && all_zero(
            gs,
            found,
            len,
        ),
    decreases gs.len() - start,
{
    if start + len <= gs.len() && !all_zero(gs, start, len) {
        lemma_zero_run_from(gs, len, start + 1);
    }
}

/// The longest run of groups of zero is a run of two groups or more.
pub proof fn lemma_longest_zero_run(gs: Seq<u16>, len: int)
    ensures
        longest_zero_run(gs, len) matches Some((start, found)) ==> 2 <= found <= len && all_zero(
            gs,
            start,
            found,
        ),
    decreases len,
{
    if len >= 2 {
        lemma_zero_run_from(gs, len, 0);
        if zero_run_from(gs, len, 0) is None {
            lemma_longest_zero_run(gs, len - 1);
        }
    }
}

/// What follows the text of an address without being read as part of it:
/// nothing, or what starts with neither a colon nor a hexadecimal digit and
/// holds no dot.
pub open spec fn ends_address(rest: Seq<char>) -> bool {
    &&& rest.len() == 0 || (rest[0] != ':' && !is_hex(rest[0]))
    &&& forall|k: int| 0 <= k < rest.len() ==> rest[k] != '.'
}

/// `::ffff:` at `p`, with a dotted address read after it up to `e`, is read
/// as the version 6 address that maps the dotted one.
#[verifier::rlimit(40)]
pub proof fn lemma_mapped_read_at(s: Seq<char>, p: int, e: int, a: u8, b: u8, c: u8, d: u8)
    requires
        0 <= p,
        p + 7 <= s.len(),
        s[p] == ':',
        s[p + 1] == ':',
        s[p + 2] == 'f',
        s[p + 3] == 'f',
        s[p + 4] == 'f',
        s[p + 5] == 'f',
        s[p + 6] == ':',
        ipv4_at(s, p + 7) == Some((IpAddress::V4(a, b, c, d), e)),
    ensures
        ipv6_at(s, p) == Some(
            (
                IpAddress::V6(0, 0, 0, 0, 0, 0xffff, (a * 256 + b) as u16, (c * 256 + d) as u16),
                e,
            ),
        ),
        ipv4_at(s, p) is None,
{
    assert(digits_end(s, p) == p);
    assert(hex_end(s, p) == p);
    assert(digits_end(s, p + 2) == p + 2);
    lemma_hex_end_at(s, p + 2, p + 6);
    let word = s.subrange(p + 2, p + 6);
    assert(word =~= seq!['f', 'f', 'f', 'f']);
    assert(hex_text(0xf) =~= seq!['f']);
    assert(hex_text(0xff) =~= seq!['f', 'f']);
    assert(hex_text(0xfff) =~= seq!['f', 'f', 'f']);
    assert(hex_text(0xffff) =~= seq!['f', 'f', 'f', 'f']);
    lemma_hex_text(0xffff);
    assert(group_at(s, p + 2) == Some((0xffffu16, p + 6)));
    assert(ipv4_at(s, p) is None);
    assert(ipv4_at(s, p + 2) is None);
    let head = groups_at(s, p, 0, 8);
    assert(head == (Seq::<u16>::empty(), p, false));
    let last = groups_at(s, p + 6, 1, 7);
    assert(last == (dotted_groups(IpAddress::V4(a, b, c, d)), e, true));
    let tail = groups_at(s, p + 2, 0, 7);
    assert(tail == (seq![0xffffu16] + last.0, e, true));
    assert(tail.0.len() == 3);
    let all = head.0 + zero_groups(8 - head.0.len() - tail.0.len()) + tail.0;
    assert(all.len() == 8);
    assert(all[0] == 0 && all[1] == 0 && all[2] == 0 && all[3] == 0 && all[4] == 0);
    assert(all[5] == 0xffff);
    assert(all[6] == (a * 256 + b) as u16);
    assert(all[7] == (c * 256 + d) as u16);
}

/// The text of a version 6 address that maps a dotted address is `::ffff:`
/// and the text of the dotted address.
pub proof fn lemma_mapped_text(gs: Seq<u16>)
    requires
        mapped_v4(gs) is Some,
    ensures
        v6_text(gs) == seq![':', ':', 'f', 'f', 'f', 'f', ':'] + dotted_text(
            (gs[6] / 256) as u8,
            (gs[6] % 256) as u8,
            (gs[7] / 256) as u8,
            (gs[7] % 256) as u8,
        ),
{
    reveal(v6_text);
    reveal_strlit("::ffff:");
    assert("::ffff:"@ =~= seq![':', ':', 'f', 'f', 'f', 'f', ':']);
}

/// The text of a version 6 address that maps a dotted address reads back
/// as that address, whatever stands before the text.
#[verifier::rlimit(40)]
pub proof fn lemma_mapped_reads_back(before: Seq<char>, gs: Seq<u16>, rest: Seq<char>)
    requires
        mapped_v4(gs) is Some,
        ends_address(rest),
    ensures
        ipv6_at(before + v6_text(gs) + rest, before.len() as int) == Some(
            (from_groups(gs), (before.len() + v6_text(gs).len()) as int),
        ),
        ipv4_at(before + v6_text(gs) + rest, before.len() as int) is None,
{
    let a = (gs[6] / 256) as u8;
    let b = (gs[6] % 256) as u8;
    let c = (gs[7] / 256) as u8;
    let d = (gs[7] % 256) as u8;
    let lead = seq![':', ':', 'f', 'f', 'f', 'f', ':'];
    let dotted = dotted_text(a, b, c, d);
    let s = before + v6_text(gs) + rest;
    let p = before.len() as int;
    let e = p + 7 + dotted.len();
    lemma_mapped_text(gs);
    assert(s =~= (before + lead) + dotted + rest);
    assert(ipv4_at(s, p + 7) == Some((IpAddress::V4(a, b, c, d), e))) by {
        assert(rest.len() == 0 || !is_hex(rest[0]));
        lemma_dotted_reads_back(before + lead, a, b, c, d, rest);
    }
    assert(s[p] == ':' && s[p + 1] == ':' && s[p + 2] == 'f' && s[p + 3] == 'f' && s[p + 4] == 'f'
        && s[p + 5] == 'f' && s[p + 6] == ':') by {
        assert forall|k: int| 0 <= k < 7 implies s[p + k] == lead[k] by {}
        assert(s[p + 0] == lead[0]);
    }
    lemma_mapped_read_at(s, p, e, a, b, c, d);
    assert(from_groups(gs) == IpAddress::V6(
        0,
        0,
        0,
        0,
        0,
        0xffff,
        (a * 256 + b) as u16,
        (c * 256 + d) as u16,
    ));
}

/// Groups, a double colon and more groups, which stand at `p` and end at
/// `e`, are read as the address of those groups with groups of zero
/// between them.
#[verifier::rlimit(40)]
pub proof fn lemma_compressed_read_at(
    s: Seq<char>,
    p: int,
    e: int,
    gs: Seq<u16>,
    start: int,
    len: int,
)
    requires
        gs.len() == 8,
        0 <= start,
        2 <= len,
        all_zero(gs, start, len),
        0 <= p,
        e == p + groups_text(gs.take(start)).len() + 2 + groups_text(gs.skip(start + len)).len(),
        e <= s.len(),
        s.subrange(p, p + groups_text(gs.take(start)).len()) == groups_text(gs.take(start)),
        s[p + groups_text(gs.take(start)).len()] == ':',
        s[p + groups_text(gs.take(start)).len() + 1] == ':',
        s.subrange(p + groups_text(gs.take(start)).len() + 2, e) == groups_text(
            gs.skip(start + len),
        ),
        groups_stop(s, e),
        forall|k: int| p <= k < s.len() ==> s[k] != '.',
    ensures
        ipv6_at(s, p) == Some((from_groups(gs), e)),
{
    let front = gs.take(start);
    let back = gs.skip(start + len);
    let q = p + groups_text(front).len();
    lemma_groups_read_back(s, p, 8, front);
    lemma_groups_read_back(s, q + 2, 7 - start, back);
    let head = groups_at(s, p, 0, 8);
    let tail = groups_at(s, q + 2, 0, 7 - start);
    assert(head == (front, q, false));
    assert(tail == (back, e, false));
    let all = front + zero_groups(8 - front.len() - back.len()) + back;
    assert(all =~= gs);
}

/// The text of a version 6 address that does not map a dotted address
/// reads back as that address, whatever stands before the text, and
/// whatever follows it that is no part of an address.
#[verifier::rlimit(40)]
pub proof fn lemma_groups_read_at(before: Seq<char>, gs: Seq<u16>, rest: Seq<char>)
    requires
        gs.len() == 8,
        mapped_v4(gs) is None,
        ends_address(rest),
    ensures
        ipv6_at(before + v6_text(gs) + rest, before.len() as int) == Some(
            (from_groups(gs), (before.len() + v6_text(gs).len()) as int),
        ),
        ipv4_at(before + v6_text(gs) + rest, before.len() as int) is None,
{
    reveal(v6_text);
    reveal_strlit("::");
    let t = v6_text(gs);
    let s = before + t + rest;
    let p = before.len() as int;
    let e = p + t.len();
    lemma_longest_zero_run(gs, 8);
    assert(forall|k: int| 0 <= k < rest.len() ==> s[e + k] == rest[k]);
    assert(forall|k: int| 0 <= k < t.len() ==> s[p + k] == t[k]);
    assert(groups_stop(s, e)) by {
        if rest.len() > 0 {
            assert(s[e + 0] == rest[0]);
        }
    }
    match longest_zero_run(gs, 8) {
        Some((start, len)) => {
            let tf = groups_text(gs.take(start));
            let tb = groups_text(gs.skip(start + len));
            lemma_groups_text_chars(gs.take(start));
            lemma_groups_text_chars(gs.skip(start + len));
            assert(t == tf + "::"@ + tb);
            let q = p + tf.len();
            assert(forall|k: int| 0 <= k < tf.len() ==> t[k] == tf[k]);
            assert(t[tf.len() as int] == ':');
            assert(t[tf.len() as int + 1] == ':');
            assert(forall|k: int| 0 <= k < tb.len() ==> t[tf.len() + 2 + k] == tb[k]);
            assert forall|k: int| p <= k < s.len() implies s[k] != '.' by {
                if k < q {
                    assert(s[p + (k - p)] == tf[k - p]);
                } else if k < q + 2 {
                    assert(s[p + (k - p)] == t[k - p]);
                } else if k < e {
                    assert(s[p + (k - p)] == tb[k - q - 2]);
                } else {
                    assert(s[e + (k - e)] == rest[k - e]);
                }
            }
            assert(s.subrange(p, q) =~= tf) by {
                assert forall|k: int| 0 <= k < tf.len() implies s.subrange(p, q)[k] == tf[k] by {
                    assert(s[p + k] == t[k]);
                }
            }
            assert(s.subrange(q + 2, e) =~= tb) by {
                assert forall|k: int| 0 <= k < tb.len() implies s.subrange(q + 2, e)[k]
                    == tb[k] by {
                    assert(s[p + (tf.len() + 2 + k)] == t[tf.len() + 2 + k]);
                }
            }
            assert(s[q] == ':') by {
                assert(s[p + tf.len()] == t[tf.len() as int]);
            }
            assert(s[q + 1] == ':') by {
                assert(s[p + (tf.len() as int + 1)] == t[tf.len() as int + 1]);
            }
            lemma_compressed_read_at(s, p, e, gs, start, len);
            lemma_no_dotted(s, p);
        },
        None => {
            lemma_groups_text_chars(gs);
            assert forall|k: int| p <= k < s.len() implies s[k] != '.' by {
                if k < e {
                    assert(s[p + (k - p)] == t[k - p]);
                } else {
                    assert(s[e + (k - e)] == rest[k - e]);
                }
            }
            assert(s.subrange(p, e) =~= t);
            lemma_groups_read_back(s, p, 8, gs);
            lemma_no_dotted(s, p);
        },
    }
}

/// The text of a version 6 address reads back as that address, whatever
/// stands before the text, and whatever follows it that is no part of an
/// address.
#[verifier::rlimit(40)]
pub proof fn lemma_v6_read_at(before: Seq<char>, gs: Seq<u16>, rest: Seq<char>)
    requires
        gs.len() == 8,
        ends_address(rest),
    ensures
        ipv6_at(before + v6_text(gs) + rest, before.len() as int) == Some(
            (from_groups(gs), (before.len() + v6_text(gs).len()) as int),
        ),
        ipv4_at(before + v6_text(gs) + rest, before.len() as int) is None,
{
    if mapped_v4(gs) is Some {
        lemma_mapped_reads_back(before, gs, rest);
    } else {
        lemma_groups_read_at(before, gs, rest);
    }
}

/// The text of an address reads back as that address.
pub proof fn lemma_ip_reads_back(ip: IpAddress)
    ensures
        parse_ip_spec(ip_text(ip)) == Some(ip),
{
    match ip {
        IpAddress::V4(a, b, c, d) => {
            lemma_v4_reads_back(a, b, c, d, 0);
        },
        IpAddress::V6(..) => {
            lemma_v6_text_alone(groups_of(ip));
        },
    }
}

/// The text of a version 6 address starts with a colon or a hexadecimal
/// digit.
#[verifier::rlimit(40)]
pub proof fn lemma_v6_text_start(gs: Seq<u16>)
    requires
        gs.len() == 8,
    ensures
        v6_text(gs).len() > 0,
        v6_text(gs)[0] == ':' || is_hex(v6_text(gs)[0]),
{
    reveal(v6_text);
    reveal_strlit("::ffff:");
    reveal_strlit("::");
    lemma_longest_zero_run(gs, 8);
    if mapped_v4(gs) is Some {
    } else {
        match longest_zero_run(gs, 8) {
            Some((start, len)) => {
                let tf = groups_text(gs.take(start));
                lemma_groups_text_chars(gs.take(start));
                let t = v6_text(gs);
                assert(t == tf + "::"@ + groups_text(gs.skip(start + len)));
                if tf.len() > 0 {
                    assert(t[0] == tf[0]);
                } else {
                    assert(t[0] == "::"@[0]);
                }
            },
            None => {
                lemma_groups_text_chars(gs);
                lemma_groups_text_split(gs);
                lemma_hex_text(gs[0] as nat);
            },
        }
    }
}

/// A bracket, a version 6 address read up to `e`, a closing bracket, a
/// colon and the digits of a port are read as that address with that port.
#[verifier::rlimit(40)]
pub proof fn lemma_bracketed_read(s: Seq<char>, e: int, ip: IpAddress, port: u16)
    requires
        s.len() > 0,
        s[0] == '[',
        ipv6_at(s, 1) == Some((ip, e)),
        0 <= e,
        e + 2 <= s.len(),
        s[e] == ']',
        s[e + 1] == ':',
        s.subrange(e + 2, s.len() as int) == decimal_text(port as nat),
    ensures
        parse_socket_spec(s) == Some(SocketAddress { ip, port, scope_id: 0 }),
{
    lemma_port_reads_back(port);
    assert(digits_end(s, 0) == 0);
    assert(ipv4_at(s, 0) is None);
    assert(scope_at(s, e) is None);
    assert(bracketed_at(s) == Some((ip, 0u32, e + 1)));
    assert(port_after(s, e + 1) == Some(port));
}

/// A bracket, a version 6 address read up to `e`, a percent sign, the
/// digits of a scope up to `d`, a closing bracket, a colon and the digits
/// of a port are read as that address with that port and scope.
#[verifier::rlimit(40)]
pub proof fn lemma_scoped_read(
    s: Seq<char>,
    e: int,
    d: int,
    ip: IpAddress,
    port: u16,
    scope_id: u32,
)
    requires
        s.len() > 0,
        s[0] == '[',
        ipv6_at(s, 1) == Some((ip, e)),
        0 <= e,
        e + 1 <= d,
        d + 2 <= s.len(),
        s[e] == '%',
        s.subrange(e + 1, d) == decimal_text(scope_id as nat),
        s[d] == ']',
        s[d + 1] == ':',
        s.subrange(d + 2, s.len() as int) == decimal_text(port as nat),
    ensures
        parse_socket_spec(s) == Some(SocketAddress { ip, port, scope_id }),
{
    lemma_port_reads_back(port);
    lemma_decimal_text(scope_id as nat);
    assert(digits_end(s, 0) == 0);
    assert(ipv4_at(s, 0) is None);
    assert forall|k: int| e + 1 <= k < d implies is_digit(#[trigger] s[k]) by {
        assert(s[k] == s.subrange(e + 1, d)[k - e - 1]);
    }
    lemma_digits_end_at(s, e + 1, d);
    assert(scope_at(s, e) == Some((scope_id, d)));
    assert(bracketed_at(s) == Some((ip, scope_id, d + 1)));
    assert(port_after(s, d + 1) == Some(port));
}

/// The text of a version 6 address with a port and without a scope reads
/// back as that address with that port.
#[verifier::rlimit(40)]
pub proof fn lemma_v6_socket_reads_back(addr: SocketAddress)
    requires
        addr.ip is V6,
        addr.scope_id == 0,
    ensures
        parse_socket_spec(socket_text(addr)) == Some(addr),
{
    reveal_strlit("]:");
    let gs = groups_of(addr.ip);
    let open = seq!['['];
    let t = v6_text(gs);
    let ps = decimal_text(addr.port as nat);
    let s = socket_text(addr);
    let e = 1 + t.len() as int;
    lemma_decimal_text(addr.port as nat);
    assert(ip_text(addr.ip) == t);
    assert(from_groups(gs) == addr.ip);
    let rest = "]:"@ + ps;
    assert(s =~= open + t + rest);
    assert(rest[0] == ']');
    assert forall|k: int| 0 <= k < rest.len() implies rest[k] != '.' by {
        if k >= 2 {
            assert(rest[k] == ps[k - 2]);
            assert(is_digit(ps[k - 2]));
        }
    }
    lemma_v6_read_at(open, gs, rest);
    assert(forall|k: int| 0 <= k < rest.len() ==> s[e + k] == rest[k]);
    assert(s[0] == '[');
    assert(s[e] == ']') by {
        assert(s[e + 0] == rest[0]);
    }
    assert(s[e + 1] == ':') by {
        assert(rest[1] == "]:"@[1]);
    }
    assert(s.subrange(e + 2, s.len() as int) =~= ps) by {
        assert forall|k: int| 0 <= k < ps.len() implies s.subrange(e + 2, s.len() as int)[k]
            == ps[k] by {
            assert(s[e + (2 + k)] == rest[2 + k]);
        }
    }
    lemma_bracketed_read(s, e, addr.ip, addr.port);
}

/// Where three texts stand one after the other, each is found again at its
/// place.
pub proof fn lemma_three_parts(a: Seq<char>, b: Seq<char>, c: Seq<char>)
    ensures
        (a + b + c).len() == a.len() + b.len() + c.len(),
        (a + b + c).subrange(0, a.len() as int) == a,
        (a + b + c).subrange(a.len() as int, (a.len() + b.len()) as int) == b,
        (a + b + c).subrange((a.len() + b.len()) as int, (a + b + c).len() as int) == c,
        forall|k: int| 0 <= k < a.len() ==> (a + b + c)[k] == a[k],
        forall|k: int| 0 <= k < b.len() ==> (a + b + c)[a.len() + k] == b[k],
        forall|k: int| 0 <= k < c.len() ==> (a + b + c)[a.len() + b.len() + k] == c[k],
{
    let s = a + b + c;
    assert(s.subrange(0, a.len() as int) =~= a);
    assert(s.subrange(a.len() as int, (a.len() + b.len()) as int) =~= b);
    assert(s.subrange((a.len() + b.len()) as int, s.len() as int) =~= c);
}

/// What follows a version 6 address with a scope: a percent sign, the
/// digits of the scope, a closing bracket, a colon and the digits of the
/// port.
pub open spec fn scoped_rest(scope_id: u32, port: u16) -> Seq<char> {
    (seq!['%'] + decimal_text(scope_id as nat)) + seq![']', ':'] + decimal_text(port as nat)
}

/// How many digits write a number.
pub open spec fn digits_len(n: nat) -> int {
    decimal_text(n).len() as int
}

/// What follows an address with a scope ends the address.
#[verifier::rlimit(40)]
pub proof fn lemma_scoped_rest(scope_id: u32, port: u16)
    ensures
        ends_address(scoped_rest(scope_id, port)),
        scoped_rest(scope_id, port).len() == digits_len(scope_id as nat) + 3 + digits_len(
            port as nat,
        ),
        scoped_rest(scope_id, port)[0] == '%',
        scoped_rest(scope_id, port).subrange(1, 1 + digits_len(scope_id as nat)) == decimal_text(
            scope_id as nat,
        ),
        scoped_rest(scope_id, port)[1 + digits_len(scope_id as nat)] == ']',
        scoped_rest(scope_id, port)[2 + digits_len(scope_id as nat)] == ':',
        scoped_rest(scope_id, port).subrange(
            3 + digits_len(scope_id as nat),
            scoped_rest(scope_id, port).len() as int,
        ) == decimal_text(port as nat),
{
    let ss = decimal_text(scope_id as nat);
    let ps = decimal_text(port as nat);
    let lead = seq!['%'] + ss;
    let mid = seq![']', ':'];
    let r = scoped_rest(scope_id, port);
    let n = ss.len() as int;
    let m = lead.len() as int;
    lemma_decimal_text(scope_id as nat);
    lemma_decimal_text(port as nat);
    lemma_three_parts(lead, mid, ps);
    assert(r[0] == lead[0]);
    assert(r[m + 0] == mid[0]);
    assert(r[m + 1] == mid[1]);
    assert(r.subrange(1, 1 + n) =~= ss) by {
        assert forall|k: int| 0 <= k < n implies r.subrange(1, 1 + n)[k] == ss[k] by {
            assert(r[1 + k] == lead[1 + k]);
        }
    }
    assert(r.subrange(3 + n, r.len() as int) =~= ps);
    assert forall|k: int| 0 <= k < r.len() implies r[k] != '.' by {
        if k == 0 {
        } else if k < m {
            assert(r[k] == lead[k]);
            assert(lead[k] == ss[k - 1]);
            assert(is_digit(ss[k - 1]));
        } else if k < m + 2 {
            assert(r[m + (k - m)] == mid[k - m]);
        } else {
            assert(r[m + 2 + (k - m - 2)] == ps[k - m - 2]);
            assert(is_digit(ps[k - m - 2]));
        }
    }
}

/// The text of a version 6 address with a port and a scope is a bracket,
/// the text of the address, and what follows an address with a scope.
#[verifier::rlimit(40)]
pub proof fn lemma_scoped_text(addr: SocketAddress)
    requires
        addr.ip is V6,
        addr.scope_id != 0,
    ensures
        socket_text(addr) == seq!['['] + v6_text(groups_of(addr.ip)) + scoped_rest(
            addr.scope_id,
            addr.port,
        ),
{
    reveal_strlit("]:");
    assert("]:"@ =~= seq![']', ':']);
    assert(socket_text(addr) =~= seq!['['] + v6_text(groups_of(addr.ip)) + scoped_rest(
        addr.scope_id,
        addr.port,
    ));
}

/// The text of a version 6 address with a port and a scope reads back as
/// that address with that port and scope.
#[verifier::rlimit(40)]
pub proof fn lemma_v6_scoped_reads_back(addr: SocketAddress)
    requires
        addr.ip is V6,
        addr.scope_id != 0,
    ensures
        parse_socket_spec(socket_text(addr)) == Some(addr),
{
    let gs = groups_of(addr.ip);
    let open = seq!['['];
    let t = v6_text(gs);
    let rest = scoped_rest(addr.scope_id, addr.port);
    let n = digits_len(addr.scope_id as nat);
    let s = open + t + rest;
    let w = t.len() as int;
    let e = 1 + w;
    let d = e + 1 + n;
    lemma_scoped_text(addr);
    lemma_scoped_rest(addr.scope_id, addr.port);
    lemma_three_parts(open, t, rest);
    lemma_v6_read_at(open, gs, rest);
    assert(from_groups(gs) == addr.ip);
    assert(s[0] == open[0]);
    assert(s[e] == '%') by {
        assert(s[1 + w + 0] == rest[0]);
    }
    assert(s[d] == ']') by {
        assert(s[1 + w + (1 + n)] == rest[1 + n]);
    }
    assert(s[d + 1] == ':') by {
        assert(s[1 + w + (2 + n)] == rest[2 + n]);
    }
    let scope_part = s.subrange(e + 1, d);
    let port_part = s.subrange(d + 2, s.len() as int);
    let scope_text = rest.subrange(1, 1 + n);
    let port_text = rest.subrange(3 + n, rest.len() as int);
    assert(scope_part =~= scope_text) by {
        assert forall|k: int| 0 <= k < n implies #[trigger] scope_part[k] == scope_text[k] by {
            assert(s[1 + w + (1 + k)] == rest[1 + k]);
        }
    }
    assert(port_part =~= port_text) by {
        assert forall|k: int| 0 <= k < rest.len() - 3 - n implies #[trigger] port_part[k]
            == port_text[k] by {
            assert(s[1 + w + (3 + n + k)] == rest[3 + n + k]);
        }
    }
    lemma_scoped_read(s, e, d, addr.ip, addr.port, addr.scope_id);
}

/// A text that starts with an opening bracket is read as no address.
pub proof fn lemma_bracket_is_no_ip(s: Seq<char>)
    requires
        s.len() > 0,
        s[0] == '[',
    ensures
        parse_ip_spec(s) is None,
{
    assert(digits_end(s, 0) == 0);
    assert(hex_end(s, 0) == 0);
    assert(ipv4_at(s, 0) is None);
    assert(group_at(s, 0) is None);
    assert(groups_at(s, 0, 0, 8) == (Seq::<u16>::empty(), 0int, false));
    assert(ipv6_at(s, 0) is None);
}

/// A text at whose start no dotted address is read, and no opening bracket
/// stands, is read as no address with a port.
pub proof fn lemma_unbracketed_is_no_socket(s: Seq<char>)
    requires
        ipv4_at(s, 0) is None,
        s.len() == 0 || s[0] != '[',
    ensures
        parse_socket_spec(s) is None,
{
}

/// The text of a version 6 address with a port starts with an opening
/// bracket.
#[verifier::rlimit(40)]
pub proof fn lemma_v6_socket_text_start(addr: SocketAddress)
    requires
        addr.ip is V6,
    ensures
        socket_text(addr).len() > 0,
        socket_text(addr)[0] == '[',
{
    let lead = seq!['['] + ip_text(addr.ip);
    assert(lead[0] == '[');
    if addr.scope_id == 0 {
        let s = lead + "]:"@ + decimal_text(addr.port as nat);
        assert(s[0] == lead[0]);
    } else {
        let s = lead + seq!['%'] + decimal_text(addr.scope_id as nat) + "]:"@ + decimal_text(
            addr.port as nat,
        );
        assert(s[0] == lead[0]);
    }
}

/// The text of a version 6 address, standing alone, reads as that address
/// from its start to its end, and no dotted address is read at its start.
#[verifier::rlimit(40)]
pub proof fn lemma_v6_text_alone(gs: Seq<u16>)
    requires
        gs.len() == 8,
    ensures
        ipv6_at(v6_text(gs), 0) == Some((from_groups(gs), v6_text(gs).len() as int)),
        ipv4_at(v6_text(gs), 0) is None,
{
    let none = Seq::<char>::empty();
    lemma_v6_read_at(none, gs, none);
    assert(none + v6_text(gs) + none =~= v6_text(gs));
}

/// The text of a version 6 address does not read as an address with a
/// port.
#[verifier::rlimit(40)]
pub proof fn lemma_v6_text_is_no_socket(ip: IpAddress)
    requires
        ip is V6,
    ensures
        parse_socket_spec(ip_text(ip)) is None,
{
    let gs = groups_of(ip);
    let t = v6_text(gs);
    assert(ip_text(ip) == t);
    assert(ipv4_at(t, 0) is None) by {
        lemma_v6_text_alone(gs);
    }
    assert(t.len() > 0 && t[0] != '[') by {
        lemma_v6_text_start(gs);
    }
    lemma_unbracketed_is_no_socket(t);
}

/// The text of a version 6 address does not read as an address with a
/// port, nor the text of one with a port as an address.
pub proof fn lemma_v6_texts_apart(addr: SocketAddress)
    requires
        addr.ip is V6,
    ensures
        parse_socket_spec(ip_text(addr.ip)) is None,
        parse_ip_spec(socket_text(addr)) is None,
{
    lemma_v6_text_is_no_socket(addr.ip);
    lemma_v6_socket_text_start(addr);
    lemma_bracket_is_no_ip(socket_text(addr));
}

/// The text of a dotted address with a port does not read as an address.
#[verifier::rlimit(40)]
pub proof fn lemma_v4_texts_apart(a: u8, b: u8, c: u8, d: u8, port: u16)
    ensures
        parse_ip_spec(
            socket_text(SocketAddress { ip: IpAddress::V4(a, b, c, d), port, scope_id: 0 }),
        ) is None,
{
    let none = Seq::<char>::empty();
    let rest = seq![':'] + decimal_text(port as nat);
    let t = dotted_text(a, b, c, d);
    let s = socket_text(SocketAddress { ip: IpAddress::V4(a, b, c, d), port, scope_id: 0 });
    lemma_dotted_reads_back(none, a, b, c, d, rest);
    assert(s =~= none + t + rest);
    assert(s.len() > t.len());
}

/// The text of an address with a port reads back as that address with that
/// port, and with its scope where it is a version 6 address. The text of an
/// address alone does not read as an address with a port, nor the text of
/// an address with a port as an address alone.
pub proof fn lemma_socket_reads_back(addr: SocketAddress)
    requires
        addr.ip is V4 ==> addr.scope_id == 0,
    ensures
        parse_socket_spec(socket_text(addr)) == Some(addr),
        parse_socket_spec(ip_text(addr.ip)) is None,
        parse_ip_spec(socket_text(addr)) is None,
{
    match addr.ip {
        IpAddress::V4(a, b, c, d) => {
            lemma_v4_reads_back(a, b, c, d, addr.port);
            lemma_v4_texts_apart(a, b, c, d, addr.port);
        },
        IpAddress::V6(..) => {
            if addr.scope_id == 0 {
                lemma_v6_socket_reads_back(addr);
            } else {
                lemma_v6_scoped_reads_back(addr);
            }
            lemma_v6_texts_apart(addr);
        },
    }
}

} // verus!
