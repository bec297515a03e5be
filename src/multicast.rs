//! Discovery decisions: which local addresses take part in multicast, how
//! often an announcement is repeated, and where it is sent.

use vstd::prelude::*;
use crate::model::HostAddr;
use crate::server::{ServerSetting, DEFAULT_PORT};

verus! {

/// How many times an announcement is sent on each interface, to make up for
/// datagrams that get lost.
pub const ANNOUNCE_REPEATS: usize = 5;

/// 224.0.0.167, the group peers announce to unless configured otherwise.
pub const DEFAULT_MULTICAST_V4: u32 = 0xe000_00a7;

/// The largest announcement a listener takes in; longer datagrams are cut.
pub const DATAGRAM_CAPACITY: usize = 1024;

/// An IPv4 address in 127.0.0.0/8.
pub open spec fn is_loopback_v4(ip: u32) -> bool {
    ip / 0x100_0000 == 127
}

/// The IPv4 addresses that are not loopback, in the order given.
pub open spec fn multicast_capable(addrs: Seq<HostAddr>) -> Seq<u32>
    decreases addrs.len(),
{
    if addrs.len() == 0 {
        Seq::empty()
    } else {
        let prev = multicast_capable(addrs.drop_last());
        match addrs.last() {
            HostAddr::V4(ip) => if is_loopback_v4(ip) {
                prev
            } else {
                prev.push(ip)
            },
            HostAddr::V6(_) => prev,
        }
    }
}

/// The interface addresses to announce from and to join the group on.
pub fn multicast_interfaces(addrs: &Vec<HostAddr>) -> (r: Vec<u32>)
    ensures
        r@ == multicast_capable(addrs@),
{
    let n = addrs.len();
    let mut r: Vec<u32> = Vec::new();
    let mut i: usize = 0;
    while i < n
        invariant
            n == addrs@.len(),
            i <= n,
            r@ == multicast_capable(addrs@.subrange(0, i as int)),
        decreases n - i,
    {
        let ghost upto = addrs@.subrange(0, i + 1);
        assert(upto.drop_last() =~= addrs@.subrange(0, i as int));
        match addrs[i] {
            HostAddr::V4(ip) => {
                if ip / 0x100_0000 != 127 {
                    r.push(ip);
                }
            },
            HostAddr::V6(_) => {},
        }
        i = i + 1;
    }
    assert(addrs@.subrange(0, n as int) =~= addrs@);
    r
}

/// The fields of a text between its dots, in order; there is always at
/// least one.
pub open spec fn split_dots(s: Seq<char>) -> Seq<Seq<char>>
    decreases s.len(),
{
    if s.len() == 0 {
        seq![Seq::empty()]
    } else {
        let prev = split_dots(s.drop_last());
        if s.last() == '.' {
            prev.push(Seq::empty())
        } else {
            prev.update(prev.len() - 1, prev.last().push(s.last()))
        }
    }
}

pub open spec fn is_digit(c: char) -> bool {
    '0' <= c <= '9'
}

/// The value of a run of decimal digits.
pub open spec fn decimal(d: Seq<char>) -> nat
    decreases d.len(),
{
    if d.len() == 0 {
        0
    } else {
        decimal(d.drop_last()) * 10 + (d.last() as nat - '0' as nat) as nat
    }
}

/// Digits that can still begin an octet: at most three, no leading zero
/// before another digit, and a value of at most 255.
pub open spec fn octet_prefix(d: Seq<char>) -> bool {
    &&& forall|i: int| 0 <= i < d.len() ==> is_digit(#[trigger] d[i])
    &&& d.len() <= 3
    &&& (d.len() > 1 ==> d[0] != '0')
    &&& decimal(d) <= 255
}

/// One field of a dotted-quad IPv4 address.
pub open spec fn is_octet(d: Seq<char>) -> bool {
    d.len() >= 1 && octet_prefix(d)
}

/// The IPv4 address a dotted-quad text such as `224.0.0.167` names, as its
/// 32-bit value: four decimal fields of at most three digits each, each at
/// most 255, without leading zeros, and nothing else.
pub open spec fn dotted_quad(s: Seq<char>) -> Option<u32> {
    let f = split_dots(s);
    if f.len() == 4 && is_octet(f[0]) && is_octet(f[1]) && is_octet(f[2]) && is_octet(f[3]) {
        Some(
            (decimal(f[0]) * 0x100_0000 + decimal(f[1]) * 0x1_0000 + decimal(f[2]) * 0x100
                + decimal(f[3])) as u32,
        )
    } else {
        None
    }
}

proof fn lemma_split_dots_nonempty(s: Seq<char>)
    ensures
        split_dots(s).len() >= 1,
    decreases s.len(),
{
    if s.len() > 0 {
        lemma_split_dots_nonempty(s.drop_last());
    }
}

/// How appending one character changes whether digits can begin an octet.
proof fn lemma_octet_prefix_push(d: Seq<char>, c: char)
    requires
        octet_prefix(d) ==> decimal(d) <= 255,
    ensures
        octet_prefix(d.push(c)) == (octet_prefix(d) && is_digit(c) && d.len() < 3 && !(d.len()
            == 1 && d[0] == '0') && decimal(d) * 10 + (c as nat - '0' as nat) <= 255),
{
    let e = d.push(c);
    assert(e.drop_last() =~= d);
    if octet_prefix(e) {
        assert forall|i: int| 0 <= i < d.len() implies is_digit(#[trigger] d[i]) by {
            assert(e[i] == d[i]);
        }
        assert(is_digit(e[d.len() as int]));
        if d.len() > 1 {
            assert(e[0] == d[0]);
        }
        if d.len() == 1 {
            assert(e[0] == d[0]);
        }
    }
    if octet_prefix(d) && is_digit(c) && d.len() < 3 && !(d.len() == 1 && d[0] == '0') && decimal(
        d,
    ) * 10 + (c as nat - '0' as nat) <= 255 {
        assert forall|i: int| 0 <= i < e.len() implies is_digit(#[trigger] e[i]) by {
            if i < d.len() {
                assert(e[i] == d[i]);
            }
        }
        if e.len() > 1 {
            assert(e[0] == d[0]);
            if d.len() == 1 {
                assert(d[0] != '0');
            }
        }
    }
}

/// The 32-bit value of a dotted-quad IPv4 address, if `s` is one.
pub fn parse_ipv4(s: &str) -> (r: Option<u32>)
    ensures
        r == dotted_quad(s@),
{
    let n = s.unicode_len();
    let mut values: Vec<u32> = Vec::new();
    let mut dots: usize = 0;
    let mut all_ok = true;
    let mut cur_len: usize = 0;
    let mut cur_val: u32 = 0;
    let mut cur_ok = true;
    let mut i: usize = 0;
    assert(split_dots(s@.subrange(0, 0)) =~= seq![Seq::<char>::empty()]);
    while i < n
        invariant
            n == s@.len(),
            i <= n,
            split_dots(s@.subrange(0, i as int)).len() == dots + 1,
            cur_len == split_dots(s@.subrange(0, i as int)).last().len(),
            cur_len <= i,
            dots <= i,
            cur_ok == octet_prefix(split_dots(s@.subrange(0, i as int)).last()),
            cur_ok ==> cur_val == decimal(split_dots(s@.subrange(0, i as int)).last()),
            cur_val <= 255,
            all_ok == forall|j: int|
                0 <= j < dots ==> is_octet(#[trigger] split_dots(s@.subrange(0, i as int))[j]),
            all_ok && dots <= 4 ==> values@.len() == dots,
            all_ok && dots <= 4 ==> forall|j: int|
                0 <= j < dots ==> values@[j] == decimal(
                    #[trigger] split_dots(s@.subrange(0, i as int))[j],
                ),
        decreases n - i,
    {
        let c = s.get_char(i);
        let ghost prefix = s@.subrange(0, i as int);
        let ghost next = s@.subrange(0, i + 1);
        let ghost f = split_dots(prefix);
        assert(next.drop_last() =~= prefix);
        assert(next.last() == c);
        if c == '.' {
            assert(split_dots(next) == f.push(Seq::<char>::empty()));
            let ok = cur_ok && cur_len >= 1;
            assert(ok == is_octet(f.last()));
            if all_ok && ok && dots < 4 {
                values.push(cur_val);
            }
            proof {
                let g = split_dots(next);
                assert forall|j: int| 0 <= j < dots implies g[j] == f[j] by {}
                assert(g[dots as int] == f.last());
                assert((all_ok && ok) == forall|j: int| 0 <= j < dots + 1 ==> is_octet(#[trigger] g[j]))
                    by {
                    if forall|j: int| 0 <= j < dots + 1 ==> is_octet(#[trigger] g[j]) {
                        assert(is_octet(g[dots as int]));
                        assert forall|j: int| 0 <= j < dots implies is_octet(#[trigger] f[j]) by {
                            assert(is_octet(g[j]));
                        }
                    }
                }
            }
            all_ok = all_ok && ok;
            dots = dots + 1;
            cur_len = 0;
            cur_val = 0;
            cur_ok = true;
            proof {
                let g = split_dots(next);
                assert(g.last() =~= Seq::<char>::empty());
                assert(decimal(Seq::<char>::empty()) == 0);
            }
        } else {
            let ghost last = f.last();
            proof {
                lemma_split_dots_nonempty(prefix);
                lemma_octet_prefix_push(last, c);
                assert(split_dots(next) == f.update(f.len() - 1, last.push(c)));
                if cur_len == 1 && cur_ok {
                    assert(last.drop_last() =~= Seq::<char>::empty());
                    assert(decimal(Seq::<char>::empty()) == 0);
                    assert(last.last() == last[0]);
                    assert(decimal(last) == (last[0] as nat - '0' as nat));
                }
            }
            let digit = '0' <= c && c <= '9';
            let new_ok = cur_ok && digit && cur_len < 3 && !(cur_len == 1 && cur_val == 0) && cur_val
                * 10 + (c as u32 - '0' as u32) <= 255;
            if new_ok {
                cur_val = cur_val * 10 + (c as u32 - '0' as u32);
                proof {
                    let e = last.push(c);
                    assert(e.drop_last() =~= last);
                }
            }
            cur_ok = new_ok;
            cur_len = cur_len + 1;
            proof {
                let g = split_dots(next);
                assert forall|j: int| 0 <= j < dots implies g[j] == f[j] by {}
            }
        }
        i = i + 1;
    }
    assert(s@.subrange(0, n as int) =~= s@);
    if all_ok && dots == 3 && cur_ok && cur_len >= 1 {
        let a = values[0];
        let b = values[1];
        let c = values[2];
        assert(a as int * 0x100_0000 + b as int * 0x1_0000 + c as int * 0x100 + cur_val as int
            <= 0xffff_ffff) by (nonlinear_arith)
            requires
                a <= 255,
                b <= 255,
                c <= 255,
                cur_val <= 255,
        ;
        Some(a * 0x100_0000 + b * 0x1_0000 + c * 0x100 + cur_val)
    } else {
        None
    }
}

/// Where announcements go: the configured group, if it is a valid IPv4
/// address, on the configured port; else the default group on the default port.
pub fn multicast_target(group: Option<u32>, port: u16) -> (r: (u32, u16))
    ensures
        r == match group {
            Some(ip) => (ip, port),
            None => (DEFAULT_MULTICAST_V4, DEFAULT_PORT),
        },
{
    match group {
        Some(ip) => (ip, port),
        None => (DEFAULT_MULTICAST_V4, DEFAULT_PORT),
    }
}

impl ServerSetting {
    /// The group and port this device announces to and listens on.
    pub fn multicast_endpoint(&self) -> (r: (u32, u16))
        ensures
            r == match dotted_quad(self.multicast_addr@) {
                Some(ip) => (ip, self.port),
                None => (DEFAULT_MULTICAST_V4, DEFAULT_PORT),
            },
    {
        multicast_target(parse_ipv4(self.multicast_addr.as_str()), self.port)
    }
}

} // verus!
