//! Tabular export of the device registry: one row per device with
//! columns id, name, tx_power, address, rssi. The CSV encoding of a
//! single record is delegated to the csv crate behind one trusted
//! call; everything around it is verified.

use vstd::prelude::*;
use vstd::string::StringExecFns;
use crate::clock::TimeParts;
use crate::clock::file_stamp_chars;
use crate::clock::file_stamp_text;
use crate::session::App;
use crate::session::DeviceInfo;

verus! {

/// The CSV line (terminator included) that one record encodes to.
pub uninterp spec fn csv_line(fields: Seq<Seq<char>>) -> Seq<char>;

/// Relies on csv::Writer: writing one record to an in-memory buffer
/// yields one CSV-encoded line, a function of the fields alone.
#[verifier::external_body]
fn csv_record_line(fields: &Vec<String>) -> (r: String)
    ensures
        r@ == csv_line(fields.deep_view()),
{
    let mut w = csv::WriterBuilder::new().has_headers(false).from_writer(Vec::new());
    let _ = w.write_record(fields);
    match w.into_inner() {
        Ok(buf) => String::from_utf8(buf).unwrap_or_default(),
        Err(_) => String::new(),
    }
}

/// The header row of every export.
pub open spec fn header_fields() -> Seq<Seq<char>> {
    seq!["id"@, "name"@, "tx_power"@, "address"@, "rssi"@]
}

/// The five columns a device exports as.
pub open spec fn device_fields(d: DeviceInfo) -> Seq<Seq<char>> {
    seq![d.id@, d.name@, d.tx_power@, d.address@, d.rssi@]
}

/// The body: one line per registry entry, oldest first.
pub open spec fn rows_chars(devices: Seq<(u128, DeviceInfo)>) -> Seq<char>
    decreases devices.len(),
{
    if devices.len() == 0 {
        Seq::empty()
    } else {
        csv_line(device_fields(devices[0].1)) + rows_chars(devices.drop_first())
    }
}

/// The whole export: header line, then one line per device.
pub open spec fn devices_csv_chars(devices: Seq<(u128, DeviceInfo)>) -> Seq<char> {
    csv_line(header_fields()) + rows_chars(devices)
}

proof fn lemma_rows_push(devices: Seq<(u128, DeviceInfo)>, e: (u128, DeviceInfo))
    ensures
        rows_chars(devices.push(e)) == rows_chars(devices) + csv_line(device_fields(e.1)),
    decreases devices.len(),
{
    if devices.len() == 0 {
        assert(devices.push(e) =~= seq![e]);
        assert(seq![e].drop_first() =~= Seq::<(u128, DeviceInfo)>::empty());
        assert(rows_chars(Seq::<(u128, DeviceInfo)>::empty()) =~= Seq::<char>::empty());
        assert(rows_chars(seq![e]) =~= csv_line(device_fields(e.1)));
        assert(rows_chars(devices) + csv_line(device_fields(e.1)) =~= csv_line(
            device_fields(e.1),
        ));
    } else {
        assert(devices.push(e).drop_first() =~= devices.drop_first().push(e));
        lemma_rows_push(devices.drop_first(), e);
        assert(rows_chars(devices.push(e)) =~= rows_chars(devices) + csv_line(
            device_fields(e.1),
        ));
    }
}

/// The name of one export file.
pub fn export_file_name(t: &TimeParts) -> (r: String)
    ensures
        r@ == "btlescan_"@ + file_stamp_chars(*t) + ".csv"@,
{
    let mut r = String::from_str("btlescan_");
    let stamp = file_stamp_text(t);
    r.append(stamp.as_str());
    r.append(".csv");
    proof {
        assert(r@ =~= "btlescan_"@ + file_stamp_chars(*t) + ".csv"@);
    }
    r
}

/// The message reported after a successful export: it names the
/// resulting path.
pub fn export_report(path: &str) -> (r: String)
    ensures
        r@ == "Devices exported to "@ + path@,
{
    let mut r = String::from_str("Devices exported to ");
    r.append(path);
    r
}

impl App {
    /// Serializes the device registry, header first, one row per
    /// device in ledger order.
    pub fn get_devices_csv(&self) -> (r: String)
        ensures
            r@ == devices_csv_chars(self.devices@),
    {
        let mut header: Vec<String> = Vec::new();
        header.push(String::from_str("id"));
        header.push(String::from_str("name"));
        header.push(String::from_str("tx_power"));
        header.push(String::from_str("address"));
        header.push(String::from_str("rssi"));
        proof {
            assert(header.deep_view() =~= header_fields());
        }
        let mut r = csv_record_line(&header);
        let n = self.devices.len();
        let mut i: usize = 0;
        proof {
            assert(rows_chars(self.devices@.take(0)) =~= Seq::<char>::empty());
            assert(r@ =~= csv_line(header_fields()) + rows_chars(self.devices@.take(0)));
        }
        while i < n
            invariant
                i <= n,
                n == self.devices@.len(),
                r@ == csv_line(header_fields()) + rows_chars(self.devices@.take(i as int)),
            decreases n - i,
        {
            let entry = self.devices.entry_at(i);
            let d = entry.1;
            let mut row: Vec<String> = Vec::new();
            row.push(d.id.clone());
            row.push(d.name.clone());
            row.push(d.tx_power.clone());
            row.push(d.address.clone());
            row.push(d.rssi.clone());
            proof {
                assert(row.deep_view() =~= device_fields(self.devices@[i as int].1));
            }
            let line = csv_record_line(&row);
            r.append(line.as_str());
            proof {
                lemma_rows_push(self.devices@.take(i as int), self.devices@[i as int]);
                assert(self.devices@.take(i as int).push(self.devices@[i as int])
                    =~= self.devices@.take(i + 1 as int));
                assert(r@ =~= csv_line(header_fields()) + rows_chars(
                    self.devices@.take(i + 1 as int),
                ));
            }
            i = i + 1;
        }
        proof {
            assert(self.devices@.take(n as int) =~= self.devices@);
        }
        r
    }
}

} // verus!
