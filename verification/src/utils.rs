//! Presentation helpers over advertisement payloads.

use vstd::prelude::*;
use vstd::string::StringExecFns;
use crate::hex::hex_str;
use crate::hex::bytes_to_hex;

verus! {

/// Vendor name and payload of an advertisement, rendered for display.
pub struct ManufacturerData {
    pub company_code: String,
    pub data: String,
}

/// The hex renderings of all payload blobs, joined by single spaces.
pub open spec fn manufacturer_join(entries: Seq<(u16, Vec<u8>)>) -> Seq<char>
    decreases entries.len(),
{
    if entries.len() == 0 {
        Seq::empty()
    } else if entries.len() == 1 {
        hex_str(entries[0].1@)
    } else {
        hex_str(entries[0].1@) + seq![' '] + manufacturer_join(entries.drop_first())
    }
}

/// The payload column: the joined hex pairs, or "n/a" when nothing
/// renders.
pub open spec fn manufacturer_data_chars(entries: Seq<(u16, Vec<u8>)>) -> Seq<char> {
    if manufacturer_join(entries).len() == 0 {
        "n/a"@
    } else {
        manufacturer_join(entries)
    }
}

proof fn lemma_manufacturer_join_push(entries: Seq<(u16, Vec<u8>)>, e: (u16, Vec<u8>))
    ensures
        manufacturer_join(entries.push(e)) == if entries.len() == 0 {
            hex_str(e.1@)
        } else {
            manufacturer_join(entries) + seq![' '] + hex_str(e.1@)
        },
    decreases entries.len(),
{
    if entries.len() == 0 {
        assert(entries.push(e) =~= seq![e]);
    } else {
        assert(entries.push(e).drop_first() =~= entries.drop_first().push(e));
        lemma_manufacturer_join_push(entries.drop_first(), e);
        if entries.len() == 1 {
            assert(manufacturer_join(entries.push(e)) =~= manufacturer_join(entries) + seq![' ']
                + hex_str(e.1@));
        } else {
            assert(manufacturer_join(entries.push(e)) =~= manufacturer_join(entries) + seq![' ']
                + hex_str(e.1@));
        }
    }
}

/// Renders an advertisement's vendor data for the detail view. The
/// vendor-name lookup is the caller's: `company_name` is the name
/// resolved for the entry's vendor code, when the table knows it.
pub fn extract_manufacturer_data(
    manufacturer_data: &Vec<(u16, Vec<u8>)>,
    company_name: Option<&str>,
) -> (r: ManufacturerData)
    ensures
        r.data@ == manufacturer_data_chars(manufacturer_data@),
        r.company_code@ == if manufacturer_data@.len() == 0 {
            "n/a"@
        } else {
            match company_name {
                Some(n) => n@,
                None => "n/a"@,
            }
        },
{
    let n = manufacturer_data.len();
    let mut joined = String::new();
    let mut i: usize = 0;
    proof {
        assert(manufacturer_join(manufacturer_data@.take(0)) =~= Seq::<char>::empty());
    }
    while i < n
        invariant
            i <= n,
            n == manufacturer_data@.len(),
            joined@ == manufacturer_join(manufacturer_data@.take(i as int)),
        decreases n - i,
    {
        if i > 0 {
            joined.append(" ");
            proof {
                reveal_strlit(" ");
                assert(" "@ =~= seq![' ']);
            }
        }
        let h = bytes_to_hex(&manufacturer_data[i].1);
        joined.append(h.as_str());
        proof {
            lemma_manufacturer_join_push(
                manufacturer_data@.take(i as int),
                manufacturer_data@[i as int],
            );
            assert(manufacturer_data@.take(i as int).push(manufacturer_data@[i as int])
                =~= manufacturer_data@.take(i + 1 as int));
            assert(joined@ =~= manufacturer_join(manufacturer_data@.take(i + 1 as int)));
        }
        i = i + 1;
    }
    proof {
        assert(manufacturer_data@.take(n as int) =~= manufacturer_data@);
    }
    let data = if joined.as_str().unicode_len() == 0 {
        String::from_str("n/a")
    } else {
        joined
    };
    let company_code = if n == 0 {
        String::from_str("n/a")
    } else {
        match company_name {
            Some(name) => String::from_str(name),
            None => String::from_str("n/a"),
        }
    };
    ManufacturerData { company_code, data }
}

} // verus!
