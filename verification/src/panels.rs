//! The computable part of each display panel: visible-window
//! arithmetic and the exact row texts. Laying the text into styled
//! terminal cells stays outside the library.

use vstd::prelude::*;
use vstd::string::StringExecFns;
use vstd::string::StrSliceExecFns;
use vstd::utf8::is_ascii_chars;
use crate::decimal::dec_str;
use crate::decimal::u64_to_dec;
use crate::log::LogDirection;
use crate::log::LogEntry;
use crate::session::CharProps;
use crate::session::DeviceInfo;
use crate::uuid_id::UuidVal;
use crate::uuid_id::uuid_chars;

verus! {

/// The log rows scrolled into view: `height` terminal rows minus the
/// panel frame, clamped so the window always ends inside the log.
pub fn message_log_window(total: usize, scroll: usize, height: u16) -> (r: (usize, usize))
    ensures
        ({
            let visible = if height > 3 {
                (height - 3) as int
            } else {
                1int
            };
            let start = if total > visible {
                if scroll <= total - visible {
                    scroll as int
                } else {
                    total - visible
                }
            } else {
                0int
            };
            r.0 == start && r.1 == (if start + visible <= total {
                start + visible
            } else {
                total as int
            })
        }),
{
    let visible: usize = if height > 3 {
        (height - 3) as usize
    } else {
        1
    };
    let start: usize = if total > visible {
        if scroll <= total - visible {
            scroll
        } else {
            total - visible
        }
    } else {
        0
    };
    let end: usize = if total - start > visible {
        start + visible
    } else {
        total
    };
    (start, end)
}

/// The overlay rows scrolled into view; a scroll past the end shows
/// nothing.
pub fn overlay_window(total: usize, scroll: usize, height: u16) -> (r: (usize, usize))
    ensures
        ({
            let visible = if height > 3 {
                (height - 3) as int
            } else {
                height as int
            };
            if scroll < total {
                r.0 == scroll && r.1 == (if scroll + visible <= total {
                    scroll + visible
                } else {
                    total as int
                })
            } else {
                r.0 == 0 && r.1 == 0
            }
        }),
{
    let visible: usize = if height > 3 {
        (height - 3) as usize
    } else {
        height as usize
    };
    if scroll < total {
        let end: usize = if total - scroll > visible {
            scroll + visible
        } else {
            total
        };
        (scroll, end)
    } else {
        (0, 0)
    }
}

pub open spec fn direction_symbol(d: LogDirection) -> Seq<char> {
    match d {
        LogDirection::Sent => "->"@,
        LogDirection::Received => "<-"@,
        LogDirection::Info => "--"@,
        LogDirection::Error => "!!"@,
    }
}

/// "[timestamp] symbol message" — one rendered log row.
pub open spec fn log_line_chars(e: LogEntry) -> Seq<char> {
    "["@ + e.timestamp@ + "] "@ + direction_symbol(e.direction) + " "@ + e.message@
}

pub fn log_line_text(e: &LogEntry) -> (r: String)
    ensures
        r@ == log_line_chars(*e),
{
    let mut r = String::from_str("[");
    r.append(e.timestamp.as_str());
    r.append("] ");
    r.append(e.direction.symbol());
    r.append(" ");
    r.append(e.message.as_str());
    proof {
        assert(r@ =~= log_line_chars(*e));
    }
    r
}

/// The columns of one device table row.
pub fn device_row(d: &DeviceInfo) -> (r: Vec<String>)
    ensures
        r.deep_view() == seq![d.id@, d.name@, d.tx_power@, d.rssi@],
{
    let mut r: Vec<String> = Vec::new();
    r.push(d.get_id());
    r.push(d.name.clone());
    r.push(d.tx_power.clone());
    r.push(d.rssi.clone());
    proof {
        assert(r.deep_view() =~= seq![d.id@, d.name@, d.tx_power@, d.rssi@]);
    }
    r
}

/// The rows of the detail table for one device; the vendor-name
/// lookup result is handed in by the caller.
pub fn detail_rows(d: &DeviceInfo, company_name: Option<&str>) -> (r: Vec<(String, String)>)
    ensures
        r.deep_view() == seq![
            ("Detected At:"@, d.detected_at@),
            ("Services:"@, dec_str(d.services@.len() as nat)),
            (
                "Company Code ID:"@,
                if d.manufacturer_data@.len() == 0 {
                    "n/a"@
                } else {
                    match company_name {
                        Some(n) => n@,
                        None => "n/a"@,
                    }
                },
            ),
            ("Manufacturer Data:"@, crate::utils::manufacturer_data_chars(d.manufacturer_data@)),
        ],
{
    let md = crate::utils::extract_manufacturer_data(&d.manufacturer_data, company_name);
    let mut r: Vec<(String, String)> = Vec::new();
    r.push((String::from_str("Detected At:"), d.detected_at.clone()));
    r.push((String::from_str("Services:"), u64_to_dec(d.services.len() as u64)));
    r.push((String::from_str("Company Code ID:"), md.company_code));
    r.push((String::from_str("Manufacturer Data:"), md.data));
    proof {
        assert(r.deep_view() =~= seq![
            ("Detected At:"@, d.detected_at@),
            ("Services:"@, dec_str(d.services@.len() as nat)),
            (
                "Company Code ID:"@,
                if d.manufacturer_data@.len() == 0 {
                    "n/a"@
                } else {
                    match company_name {
                        Some(n) => n@,
                        None => "n/a"@,
                    }
                },
            ),
            ("Manufacturer Data:"@, crate::utils::manufacturer_data_chars(d.manufacturer_data@)),
        ]);
    }
    r
}

/// The capability names set in `p`, in flag order.
pub open spec fn props_list(p: CharProps) -> Seq<Seq<char>> {
    (if p.broadcast {
        seq!["BROADCAST"@]
    } else {
        Seq::empty()
    }) + (if p.read {
        seq!["READ"@]
    } else {
        Seq::empty()
    }) + (if p.write_without_response {
        seq!["WRITE_WITHOUT_RESPONSE"@]
    } else {
        Seq::empty()
    }) + (if p.write {
        seq!["WRITE"@]
    } else {
        Seq::empty()
    }) + (if p.notify {
        seq!["NOTIFY"@]
    } else {
        Seq::empty()
    }) + (if p.indicate {
        seq!["INDICATE"@]
    } else {
        Seq::empty()
    })
}

/// The parts joined by the separator.
pub open spec fn join_sep(parts: Seq<Seq<char>>, sep: Seq<char>) -> Seq<char>
    decreases parts.len(),
{
    if parts.len() == 0 {
        Seq::empty()
    } else if parts.len() == 1 {
        parts[0]
    } else {
        parts[0] + sep + join_sep(parts.drop_first(), sep)
    }
}

proof fn lemma_join_sep_push(parts: Seq<Seq<char>>, sep: Seq<char>, e: Seq<char>)
    ensures
        join_sep(parts.push(e), sep) == if parts.len() == 0 {
            e
        } else {
            join_sep(parts, sep) + sep + e
        },
    decreases parts.len(),
{
    if parts.len() == 0 {
        assert(parts.push(e) =~= seq![e]);
    } else {
        assert(parts.push(e).drop_first() =~= parts.drop_first().push(e));
        lemma_join_sep_push(parts.drop_first(), sep, e);
        if parts.len() == 1 {
            assert(join_sep(parts.push(e), sep) =~= join_sep(parts, sep) + sep + e);
        } else {
            assert(join_sep(parts.push(e), sep) =~= join_sep(parts, sep) + sep + e);
        }
    }
}

fn join_parts(parts: &Vec<&str>, sep: &str) -> (r: String)
    ensures
        r@ == join_sep(parts.deep_view(), sep@),
{
    let mut r = String::new();
    let n = parts.len();
    let mut i: usize = 0;
    proof {
        assert(parts.deep_view().take(0) =~= Seq::<Seq<char>>::empty());
    }
    while i < n
        invariant
            i <= n,
            n == parts@.len(),
            parts.deep_view().len() == n,
            forall|j: int| 0 <= j < n ==> parts.deep_view()[j] == parts@[j]@,
            r@ == join_sep(parts.deep_view().take(i as int), sep@),
        decreases n - i,
    {
        if i > 0 {
            r.append(sep);
        }
        r.append(parts[i]);
        proof {
            lemma_join_sep_push(parts.deep_view().take(i as int), sep@, parts.deep_view()[i as int]);
            assert(parts.deep_view().take(i as int).push(parts.deep_view()[i as int])
                =~= parts.deep_view().take(i + 1 as int));
            assert(r@ =~= join_sep(parts.deep_view().take(i + 1 as int), sep@));
        }
        i = i + 1;
    }
    proof {
        assert(parts.deep_view().take(n as int) =~= parts.deep_view());
    }
    r
}

/// Renders the capability names joined by `sep`.
pub fn props_text(p: &CharProps, sep: &str) -> (r: String)
    ensures
        r@ == join_sep(props_list(*p), sep@),
{
    let mut parts: Vec<&str> = Vec::new();
    if p.broadcast {
        parts.push("BROADCAST");
    }
    if p.read {
        parts.push("READ");
    }
    if p.write_without_response {
        parts.push("WRITE_WITHOUT_RESPONSE");
    }
    if p.write {
        parts.push("WRITE");
    }
    if p.notify {
        parts.push("NOTIFY");
    }
    if p.indicate {
        parts.push("INDICATE");
    }
    proof {
        assert(parts.deep_view() =~= props_list(*p));
    }
    join_parts(&parts, sep)
}

/// The first eight digits of the identifier, as the panels abbreviate
/// it.
pub fn uuid_short_text(u: &UuidVal) -> (r: String)
    ensures
        r@ == uuid_chars(u.bits).take(8),
{
    let full = u.to_text();
    proof {
        crate::uuid_id::lemma_uuid_chars_ascii(u.bits);
        assert(is_ascii_chars(full@));
    }
    let s = full.as_str().substring_ascii(0, 8);
    String::from_str(s)
}

/// The subscription column of the read/write panel.
pub fn sub_status_text(subscribed: bool) -> (r: String)
    ensures
        r@ == if subscribed {
            "Subscribed"@
        } else {
            "Not subscribed"@
        },
{
    if subscribed {
        String::from_str("Subscribed")
    } else {
        String::from_str("Not subscribed")
    }
}

/// The status row of the server panel.
pub fn server_status_text(advertising: bool) -> (r: String)
    ensures
        r@ == if advertising {
            "Advertising"@
        } else {
            "Stopped"@
        },
{
    if advertising {
        String::from_str("Advertising")
    } else {
        String::from_str("Stopped")
    }
}

/// The input row of an editing panel: the buffer with an edit marker
/// while editing, a hint while empty, the plain buffer otherwise.
pub fn input_display_text(editing: bool, buffer: &str, hint: &str) -> (r: String)
    ensures
        r@ == if editing {
            "> "@ + buffer@ + "_"@
        } else if buffer@.len() == 0 {
            hint@
        } else {
            "  "@ + buffer@
        },
{
    if editing {
        let mut r = String::from_str("> ");
        r.append(buffer);
        r.append("_");
        proof {
            assert(r@ =~= "> "@ + buffer@ + "_"@);
        }
        r
    } else if buffer.unicode_len() == 0 {
        String::from_str(hint)
    } else {
        let mut r = String::from_str("  ");
        r.append(buffer);
        r
    }
}

} // verus!
