//! Laws of the bus behind one lock.

use crate::bits::bit;
use crate::bus::single::{bus_coil, bus_disc, bus_hold, bus_input, bus_written, BusView};
use crate::device::system_config::{cfg_read, cfg_write, cfg_write_result, CfgView};
use crate::device::DeviceCmd;
use crate::device_config::{table_read, table_write};
use vstd::prelude::*;

verus! {

/// Sixteen inputs from 0 and sixteen outputs from 512 can be read as coils, the inputs
/// as discrete inputs too.
pub proof fn law_bus_points(b: BusView, addr: u16)
    ensures
        512 <= addr < 528 ==> bus_coil(b, addr) == Some(bit(b.do_, addr - 512)),
        addr < 16 ==> bus_coil(b, addr) == Some(bit(b.di, addr as int)),
        addr < 16 ==> bus_disc(b, addr) == Some(bit(b.di, addr as int)),
        16 <= addr < 512 || 528 <= addr ==> bus_coil(b, addr) is None,
        16 <= addr ==> bus_disc(b, addr) is None,
{
}

/// The input registers of the bus: converter values from 128, scaled values from 136,
/// and what the board has.
pub proof fn law_bus_input_registers(b: BusView, addr: u16)
    requires
        b.ai_raw.len() == 6,
        b.ai_scaled.len() == 6,
    ensures
        128 <= addr < 132 ==> bus_input(b, addr) == Some(b.ai_raw[addr - 128]),
        136 <= addr < 140 ==> bus_input(b, addr) == Some(b.ai_scaled[addr - 136]),
        addr == 0x087C ==> bus_input(b, addr) == Some(0x1010u16),
        addr == 0x087D ==> bus_input(b, addr) == Some(0x0402u16),
        addr == 0x087E ==> bus_input(b, addr) == Some(b.sys.firmware_version),
        addr == 0x087F ==> bus_input(b, addr) is Some,
        addr < 128 || 132 <= addr < 136 || 140 <= addr < 0x087C || 0x087F < addr ==> bus_input(b, addr) is None,
{
}

/// The holding registers of the bus.
pub proof fn law_bus_holding_registers(b: BusView, addr: u16)
    ensures
        ({
            let r = bus_hold(b, addr);
            &&& 5000 <= addr < 7000 ==> r == Some(b.text[addr - 5000])
            &&& 2300 <= addr < 2400 && table_read(b.table, addr) is Some ==> r == table_read(b.table, addr)
            &&& (2176 <= addr < 2300 || 2400 <= addr < 4224) && cfg_read(b.cfg, addr) is Some ==> r == cfg_read(
                b.cfg,
                addr,
            )
            &&& (2176 <= addr < 2300 || 2400 <= addr < 4224) && cfg_read(b.cfg, addr) is None ==> r == Some(0u16)
            &&& 0x4000 <= addr < 0x45DC ==> r == Some(b.data[addr - 0x4000])
            &&& addr == 0x45DC || addr == 0x45DD ==> r == Some(0u16)
            &&& addr == 0x45DE ==> r == Some(b.version)
            &&& addr == 0x45DF ==> r == Some(b.length)
            &&& addr == 0x45E0 ==> r == Some(b.status as u16)
            &&& addr == 0x45E1 ==> r == Some(0x4757u16)
            &&& addr < 2176 || 4224 <= addr < 5000 || 7000 <= addr < 0x4000 || 0x45E1 < addr ==> r is None
        }),
{
}

/// What a write to the bus does.
pub proof fn law_bus_write_does(b: BusView, addr: u16, v: u16)
    requires
        b.requests.len() < 32,
        b.cfg.cfg_version < 0xFFFF,
    ensures
        ({
            let r = bus_written(b, addr, v);
            let c = cfg_write(b.cfg, addr, v);
            let result = cfg_write_result(addr, v);
            let setting = 2176 <= addr < 2300 || 2400 <= addr < 4224;
            &&& 5000 <= addr < 7000 ==> r == Some(BusView { text: b.text.update(addr - 5000, v), ..b })
            &&& 2300 <= addr < 2400 ==> (r is Some <==> table_write(b.table, addr, v) is Some)
            &&& 2300 <= addr < 2400 && r is Some ==> r->0 == (BusView { table: table_write(b.table, addr, v)->0, ..b })
            &&& setting && (result is Written || result is NotFound) ==> r == Some(BusView { cfg: c, ..b })
            &&& setting && result is Persist ==> r == Some(
                BusView { cfg: c, requests: b.requests.push(DeviceCmd::PersistConfig), ..b },
            )
            &&& setting && result is Apply ==> r == Some(
                BusView {
                    cfg: CfgView { cfg_version: (c.cfg_version + 1) as u16, ..c },
                    requests: b.requests.push(DeviceCmd::ApplyConfig),
                    ..b
                },
            )
            &&& 0x4000 <= addr < 0x45DC ==> r == Some(
                BusView { data: b.data.update(addr - 0x4000, v), dirty: true, ..b },
            )
            &&& addr == 0x45DC && v == 0xC5C5 ==> r == Some(
                BusView { status: 1, requests: b.requests.push(DeviceCmd::Commit), ..b },
            )
            &&& addr == 0x45DD && v == 0xA5A5 ==> r == Some(
                BusView { status: 2, requests: b.requests.push(DeviceCmd::Reload), ..b },
            )
            &&& addr == 0x45DC && v != 0xC5C5 || addr == 0x45DD && v != 0xA5A5 ==> r == Some(b)
            &&& addr == 0x45DE ==> r == Some(BusView { version: v, dirty: true, ..b })
            &&& addr == 0x45DF ==> r == Some(BusView { length: v, dirty: true, ..b })
            &&& addr < 2176 || 4224 <= addr < 5000 || 7000 <= addr < 0x4000 || 0x45DF < addr ==> r is None
        }),
{
}

} // verus!
