//! Address ranges a user-supplied URL must not reach: loopback, private,
//! link-local, broadcast and unspecified addresses.
use vstd::prelude::*;
use crate::providers::webhook::{parse_url_host, url_host, HostView, UrlHost};
use crate::text::str_eq;

verus! {

broadcast use vstd::string::group_string_axioms;

/// An IP address, IPv4 as four octets and IPv6 as eight 16-bit segments.
#[derive(Clone, Copy, Debug, PartialEq, Eq)]
pub enum IpAddress {
    V4([u8; 4]),
    V6([u16; 8]),
}

/// IPv4 ranges refused: 127.0.0.0/8 (loopback), 10.0.0.0/8, 172.16.0.0/12 and
/// 192.168.0.0/16 (private), 169.254.0.0/16 (link-local), 255.255.255.255
/// (broadcast) and 0.0.0.0 (unspecified).
pub open spec fn private_v4(o: Seq<u8>) -> bool {
    ||| o[0] == 127
    ||| o[0] == 10
    ||| (o[0] == 172 && 16 <= o[1] <= 31)
    ||| (o[0] == 192 && o[1] == 168)
    ||| (o[0] == 169 && o[1] == 254)
    ||| (o[0] == 255 && o[1] == 255 && o[2] == 255 && o[3] == 255)
    ||| (o[0] == 0 && o[1] == 0 && o[2] == 0 && o[3] == 0)
}

/// IPv6 ranges refused: ::1 (loopback), :: (unspecified), fc00::/7
/// (unique local) and fe80::/10 (link-local).
pub open spec fn private_v6(s: Seq<u16>) -> bool {
    let first_seven_zero = s[0] == 0 && s[1] == 0 && s[2] == 0 && s[3] == 0 && s[4] == 0 && s[5] == 0
        && s[6] == 0;
    ||| (first_seven_zero && s[7] == 1)
    ||| (first_seven_zero && s[7] == 0)
    ||| s[0] & 0xfe00 == 0xfc00
    ||| s[0] & 0xffc0 == 0xfe80
}

pub open spec fn private_ip(ip: IpAddress) -> bool {
    match ip {
        IpAddress::V4(o) => private_v4(o@),
        IpAddress::V6(s) => private_v6(s@),
    }
}

/// Whether `ip` is loopback, private, link-local, broadcast or unspecified.
pub fn is_private_ip(ip: IpAddress) -> (r: bool)
    ensures
        r == private_ip(ip),
{
    match ip {
        IpAddress::V4(o) => {
            let a = o[0];
            let b = o[1];
            let c = o[2];
            let d = o[3];
            a == 127 || a == 10 || (a == 172 && 16 <= b && b <= 31) || (a == 192 && b == 168) || (a == 169
                && b == 254) || (a == 255 && b == 255 && c == 255 && d == 255) || (a == 0 && b == 0 && c
                == 0 && d == 0)
        },
        IpAddress::V6(s) => {
            let first_seven_zero = s[0] == 0 && s[1] == 0 && s[2] == 0 && s[3] == 0 && s[4] == 0 && s[5]
                == 0 && s[6] == 0;
            (first_seven_zero && s[7] == 1) || (first_seven_zero && s[7] == 0) || s[0] & 0xfe00 == 0xfc00
                || s[0] & 0xffc0 == 0xfe80
        },
    }
}

/// Host names that always mean this machine.
pub open spec fn loopback_name(host: Seq<char>) -> bool {
    host == "localhost"@ || host == "localhost.localdomain"@ || host == "ip6-localhost"@ || host
        == "ip6-loopback"@
}

/// Whether a bare host names this machine or, when it is an IP literal
/// (`literal` is its parsed form), a refused address.
pub fn is_private_host(host: &str, literal: Option<IpAddress>) -> (r: bool)
    ensures
        r == (loopback_name(host@) || match literal {
            Some(ip) => private_ip(ip),
            None => false,
        }),
{
    if str_eq(host, "localhost") || str_eq(host, "localhost.localdomain") || str_eq(host, "ip6-localhost")
        || str_eq(host, "ip6-loopback") {
        return true;
    }
    match literal {
        Some(ip) => is_private_ip(ip),
        None => false,
    }
}

/// Whether a user-supplied URL points at a loopback, private, link-local,
/// broadcast or unspecified host. The URL is parsed with the `url` crate;
/// `literal_of` reads a domain host as an IP literal, if it is one.
pub fn is_private_url<F: Fn(&str) -> Option<IpAddress>>(url: &str, literal_of: F) -> (r: bool)
    requires
        forall|h: &str| call_requires(literal_of, (h,)),
    ensures
        match url_host(url@) {
            Some(Some(HostView::Domain(d))) => exists|h: &str, o: Option<IpAddress>|
                h@ == d && #[trigger] call_ensures(literal_of, (h,), o) && r == (loopback_name(d) || (
                o matches Some(ip) && private_ip(ip))),
            Some(Some(HostView::Ip(ip))) => r == private_ip(ip),
            _ => r,
        },
{
    match parse_url_host(url) {
        None => true,
        Some(None) => true,
        Some(Some(UrlHost::Ipv4(o))) => is_private_ip(IpAddress::V4(o)),
        Some(Some(UrlHost::Ipv6(s))) => is_private_ip(IpAddress::V6(s)),
        Some(Some(UrlHost::Domain(d))) => {
            let literal = literal_of(d.as_str());
            is_private_host(d.as_str(), literal)
        },
    }
}

} // verus!
