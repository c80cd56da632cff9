//! The short texts the interface shows for mail: the window title, who a
//! message is from and to, how many messages a thread has, and how large
//! an attachment is.

use vstd::prelude::*;

use crate::model::MailAddress;
use crate::text::{decimal, decimal_string, digit_char, joined};

verus! {

/// The window title: the app's name, marked in the demo, and the unread
/// count when there is unread mail.
pub open spec fn title_text(unread: Option<u32>, demo: bool) -> Seq<char> {
    let name = if demo {
        "Ruston Mail (demo)"@
    } else {
        "Ruston Mail"@
    };
    match unread {
        Some(n) => if n > 0 {
            name + " ("@ + decimal(n as nat) + ")"@
        } else {
            name
        },
        None => name,
    }
}

pub fn title_label(unread: Option<u32>, demo: bool) -> (r: String)
    ensures
        r@ == title_text(unread, demo),
{
    proof {
        reveal_strlit("Ruston Mail (demo)");
        reveal_strlit("Ruston Mail");
        reveal_strlit(" (");
        reveal_strlit(")");
    }
    let name = if demo {
        "Ruston Mail (demo)".to_owned()
    } else {
        "Ruston Mail".to_owned()
    };
    match unread {
        Some(n) => {
            if n > 0 {
                name.concat(" (").concat(decimal_string(n as u64).as_str()).concat(")")
            } else {
                name
            }
        },
        None => name,
    }
}

/// How many messages a thread holds, in words.
pub open spec fn message_count_text(count: nat) -> Seq<char> {
    if count == 0 {
        "No messages"@
    } else if count == 1 {
        "1 message"@
    } else {
        decimal(count) + " messages"@
    }
}

pub fn message_count_label(count: usize) -> (r: String)
    ensures
        r@ == message_count_text(count as nat),
{
    proof {
        reveal_strlit("No messages");
        reveal_strlit("1 message");
        reveal_strlit(" messages");
    }
    if count == 0 {
        "No messages".to_owned()
    } else if count == 1 {
        "1 message".to_owned()
    } else {
        decimal_string(count as u64).concat(" messages")
    }
}

/// How an address reads: a name with its address, whichever of the two
/// there is, or a placeholder when there is neither. An empty name counts
/// as none.
pub open spec fn address_text(a: MailAddress) -> Seq<char> {
    let email = a.address@;
    match a.name {
        Some(n) => if n@.len() > 0 {
            if email.len() == 0 {
                n@
            } else {
                n@ + " <"@ + email + ">"@
            }
        } else if email.len() == 0 {
            "(unknown)"@
        } else {
            email
        },
        None => if email.len() == 0 {
            "(unknown)"@
        } else {
            email
        },
    }
}

pub fn address_label(address: &MailAddress) -> (r: String)
    ensures
        r@ == address_text(*address),
{
    proof {
        reveal_strlit(" <");
        reveal_strlit(">");
        reveal_strlit("(unknown)");
    }
    let email = address.address.as_str();
    let named = match &address.name {
        Some(n) => {
            if n.as_str().is_empty() {
                None
            } else {
                Some(n)
            }
        },
        None => None,
    };
    match named {
        Some(n) => {
            if email.is_empty() {
                n.clone()
            } else {
                n.clone().concat(" <").concat(email).concat(">")
            }
        },
        None => {
            if email.is_empty() {
                "(unknown)".to_owned()
            } else {
                email.to_owned()
            }
        },
    }
}

/// Every recipient, separated by commas, or a placeholder for none.
pub open spec fn recipients_text(rs: Seq<MailAddress>) -> Seq<char> {
    if rs.len() == 0 {
        "(no recipients)"@
    } else {
        joined(rs.map_values(|a: MailAddress| address_text(a)), ", "@)
    }
}

pub fn recipients_label(recipients: &Vec<MailAddress>) -> (r: String)
    ensures
        r@ == recipients_text(recipients@),
{
    proof {
        reveal_strlit("(no recipients)");
        reveal_strlit(", ");
    }
    if recipients.len() == 0 {
        return "(no recipients)".to_owned();
    }
    let ghost all = recipients@.map_values(|a: MailAddress| address_text(a));
    let mut out = address_label(&recipients[0]);
    let mut i: usize = 1;
    assert(all.take(1) =~= seq![all[0]]);
    while i < recipients.len()
        invariant
            1 <= i <= recipients.len(),
            all == recipients@.map_values(|a: MailAddress| address_text(a)),
            out@ == joined(all.take(i as int), ", "@),
        decreases recipients.len() - i,
    {
        let label = address_label(&recipients[i]);
        proof {
            assert(all.take(i + 1).drop_last() =~= all.take(i as int));
            assert(all.take(i + 1).last() == label@);
        }
        out = out.concat(", ").concat(label.as_str());
        i += 1;
    }
    assert(all.take(recipients.len() as int) =~= all);
    out
}

/// The largest integers a 64-bit float holds exactly are those below this.
pub const EXACT_FLOAT: u128 = 9007199254740992;

/// `n / d` rounded to the nearest whole number, ties to the even one.
pub open spec fn rounded(n: nat, d: nat) -> nat
    recommends
        d > 0,
{
    let q = n / d;
    let r = n % d;
    if 2 * r > d || (2 * r == d && q % 2 == 1) {
        q + 1
    } else {
        q
    }
}

/// The spacing of 64-bit floats around `b`: one below the exact range,
/// doubling with each further bit.
pub open spec fn float_step(b: nat) -> nat
    decreases b,
{
    if b < EXACT_FLOAT {
        1
    } else {
        2 * float_step(b / 2)
    }
}

/// The byte count as a 64-bit float holds it: rounded to the nearest
/// float, ties to even.
pub open spec fn as_float(b: nat) -> nat {
    rounded(b, float_step(b)) * float_step(b)
}

/// A size in a unit of `unit` bytes: one decimal below ten of them, whole
/// units from there on.
pub open spec fn in_unit(v: nat, unit: nat, suffix: Seq<char>) -> Seq<char> {
    if v < 10 * unit {
        let tenths = rounded(v * 10, unit);
        decimal(tenths / 10) + "."@ + seq![digit_char(tenths % 10)] + " "@ + suffix
    } else {
        decimal(rounded(v, unit)) + " "@ + suffix
    }
}

/// How large a file is, at a glance: in KB below a megabyte's worth of
/// kilobytes, then MB, then GB; with the rounding of the float the size is
/// read as.
pub open spec fn size_text(bytes: nat) -> Seq<char> {
    let v = as_float(bytes);
    if v < 1048576 {
        in_unit(v, 1024, "KB"@)
    } else if v < 1073741824 {
        in_unit(v, 1048576, "MB"@)
    } else if v < 1099511627776 {
        in_unit(v, 1073741824, "GB"@)
    } else {
        decimal(rounded(v, 1073741824)) + " GB"@
    }
}

/// `n / d` rounded to the nearest whole number, ties to the even one.
fn round_div(n: u128, d: u128) -> (r: u128)
    requires
        d > 0,
    ensures
        r == rounded(n as nat, d as nat),
{
    let q = n / d;
    let rest = n % d;
    if (rest > d - rest) || (rest == d - rest && q % 2 == 1) {
        proof {
            assert(d >= 2);
            vstd::arithmetic::div_mod::lemma_div_is_ordered_by_denominator(n as int, 2, d as int);
        }
        q + 1
    } else {
        q
    }
}

proof fn lemma_halve(b: nat, d: nat, m: nat)
    requires
        d > 0,
        m == b / d,
    ensures
        m / 2 == b / (2 * d),
{
    vstd::arithmetic::div_mod::lemma_div_denominator(b as int, d as int, 2);
    assert(d * 2 == 2 * d) by (nonlinear_arith);
}

/// The byte count as a 64-bit float holds it.
fn float_value(bytes: u64) -> (r: u128)
    ensures
        r == as_float(bytes as nat),
        r <= 2 * (bytes as nat) + 1,
{
    let mut d: u128 = 1;
    let mut m: u128 = bytes as u128;
    while m >= EXACT_FLOAT
        invariant
            d >= 1,
            m == (bytes as nat) / (d as nat),
            float_step(bytes as nat) == d * float_step(m as nat),
            d * m <= bytes,
            d == 1 || d <= bytes,
        decreases m,
    {
        proof {
            lemma_halve(bytes as nat, d as nat, m as nat);
            assert(float_step(m as nat) == 2 * float_step((m / 2) as nat));
            assert(d * (2 * float_step((m / 2) as nat)) == (2 * d) * float_step((m / 2) as nat)) by (nonlinear_arith);
            assert((2 * d) * (m / 2) <= d * m) by (nonlinear_arith)
                requires
                    d >= 1,
            ;
            assert(2 * d <= d * m) by (nonlinear_arith)
                requires
                    m >= 2,
            ;
        }
        d = 2 * d;
        m = m / 2;
    }
    let q = round_div(bytes as u128, d);
    proof {
        assert(float_step(m as nat) == 1);
        assert(q <= (bytes as nat) / (d as nat) + 1);
        assert(q * d <= bytes + d) by (nonlinear_arith)
            requires
                q <= (bytes as nat) / (d as nat) + 1,
                d >= 1,
        {
            vstd::arithmetic::div_mod::lemma_fundamental_div_mod(bytes as int, d as int);
        }
        if bytes == 0 {
            assert(d == 1);
        }
    }
    q * d
}

/// Writes a size in a unit of `unit` bytes.
fn unit_label(v: u128, unit: u128, suffix: &str) -> (r: String)
    requires
        unit > 0,
        v <= 0x4_0000_0000_0000_0000,
        1024 <= unit <= 1073741824,
    ensures
        r@ == in_unit(v as nat, unit as nat, suffix@),
{
    proof {
        reveal_strlit(".");
        reveal_strlit(" ");
    }
    if v < 10 * unit {
        let tenths = round_div(v * 10, unit);
        proof {
            assert(tenths <= (v * 10) as int / (unit as int) + 1);
            assert((v * 10) as int / (unit as int) < 100) by (nonlinear_arith)
                requires
                    (v * 10) < 100 * unit,
                    unit > 0,
            ;
        }
        let whole = tenths / 10;
        let digit = tenths % 10;
        let mut out = decimal_string(whole as u64);
        out.append(".");
        let d = decimal_string(digit as u64);
        assert(d@ == seq![digit_char(digit as nat)]);
        out.append(d.as_str());
        out.append(" ");
        out.append(suffix);
        proof {
            assert(out@ =~= decimal(tenths as nat / 10) + "."@ + seq![digit_char(tenths as nat % 10)] + " "@ + suffix@);
        }
        out
    } else {
        let units = round_div(v, unit);
        proof {
            assert(units <= v / unit + 1);
            assert(v / unit <= v / 1024) by {
                vstd::arithmetic::div_mod::lemma_div_is_ordered_by_denominator(v as int, 1024, unit as int);
            }
        }
        let mut out = decimal_string(units as u64);
        out.append(" ");
        out.append(suffix);
        out
    }
}

pub fn size_label(bytes: u64) -> (r: String)
    ensures
        r@ == size_text(bytes as nat),
{
    proof {
        reveal_strlit("KB");
        reveal_strlit("MB");
        reveal_strlit("GB");
        reveal_strlit(" GB");
        reveal_strlit(" ");
    }
    let v = float_value(bytes);
    if v < 1048576 {
        unit_label(v, 1024, "KB")
    } else if v < 1073741824 {
        unit_label(v, 1048576, "MB")
    } else if v < 1099511627776 {
        unit_label(v, 1073741824, "GB")
    } else {
        let units = round_div(v, 1073741824);
        let mut out = decimal_string(units as u64);
        out.append(" GB");
        out
    }
}

/// What the list says it shows while searching: what the server found for
/// a query, or the loaded conversations being narrowed as one types.
pub open spec fn search_scope_text(results: Option<Seq<char>>, loaded: nat) -> Seq<char> {
    match results {
        Some(query) => "Showing what the server found for “"@ + query + "”."@,
        None => if loaded == 1 {
            "Narrowing the 1 conversation loaded so far. Press Enter to search all mail."@
        } else {
            "Narrowing the "@ + decimal(loaded)
                + " conversations loaded so far. Press Enter to search all mail."@
        },
    }
}

pub fn search_scope_label(results: Option<&str>, loaded: usize) -> (r: String)
    ensures
        r@ == search_scope_text(crate::html::opt_str(results), loaded as nat),
{
    match results {
        Some(query) => "Showing what the server found for “".to_owned().concat(query).concat("”."),
        None => if loaded == 1 {
            "Narrowing the 1 conversation loaded so far. Press Enter to search all mail.".to_owned()
        } else {
            "Narrowing the ".to_owned().concat(decimal_string(loaded as u64).as_str()).concat(
                " conversations loaded so far. Press Enter to search all mail.",
            )
        },
    }
}

} // verus!
