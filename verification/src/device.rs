//! Network device listings.
//!
//! Device discovery itself is a remote read performed by the transport; it
//! hands the entries in as plain values. The engine's only rule about them:
//! an entry without a hardware address identifies nothing and is dropped
//! from the listing.

use vstd::prelude::*;

verus! {

/// One discovered network device.
pub struct DeviceInfo {
    pub mac: String,
    pub name: Option<String>,
    pub device_type: Option<String>,
}

/// Mathematical model of a discovered device.
pub struct DeviceInfoModel {
    pub mac: Seq<char>,
    pub name: Option<Seq<char>>,
    pub device_type: Option<Seq<char>>,
}

impl View for DeviceInfo {
    type V = DeviceInfoModel;

    open spec fn view(&self) -> DeviceInfoModel {
        DeviceInfoModel {
            mac: self.mac@,
            name: self.name.deep_view(),
            device_type: self.device_type.deep_view(),
        }
    }
}

impl DeepView for DeviceInfo {
    type V = DeviceInfoModel;

    open spec fn deep_view(&self) -> DeviceInfoModel {
        self.view()
    }
}

/// The entries that carry a hardware address, in order.
pub open spec fn addressed_spec(devices: Seq<DeviceInfoModel>) -> Seq<DeviceInfoModel>
    decreases devices.len(),
{
    if devices.len() == 0 {
        Seq::empty()
    } else {
        let front = addressed_spec(devices.drop_last());
        if devices.last().mac.len() > 0 {
            front.push(devices.last())
        } else {
            front
        }
    }
}

/// Keeps exactly the entries that carry a hardware address, in order.
pub fn keep_addressed(devices: Vec<DeviceInfo>) -> (r: Vec<DeviceInfo>)
    ensures
        r.deep_view() == addressed_spec(devices.deep_view()),
{
    let ghost all = devices.deep_view();
    let mut out: Vec<DeviceInfo> = Vec::new();
    proof {
        assert(all.take(0) =~= Seq::<DeviceInfoModel>::empty());
        assert(out.deep_view() =~= addressed_spec(all.take(0)));
    }
    let mut i: usize = 0;
    while i < devices.len()
        invariant
            i <= devices@.len(),
            all == devices.deep_view(),
            all.len() == devices@.len(),
            out.deep_view() == addressed_spec(all.take(i as int)),
        decreases devices@.len() - i,
    {
        proof {
            assert(all.take(i as int + 1).drop_last() =~= all.take(i as int));
            assert(all.take(i as int + 1).last() == all[i as int]);
        }
        if !devices[i].mac.as_str().is_empty() {
            let d = DeviceInfo {
                mac: devices[i].mac.clone(),
                name: match &devices[i].name {
                    Some(s) => Some(s.clone()),
                    None => None,
                },
                device_type: match &devices[i].device_type {
                    Some(s) => Some(s.clone()),
                    None => None,
                },
            };
            out.push(d);
        }
        proof {
            assert(out.deep_view() =~= addressed_spec(all.take(i as int + 1)));
        }
        i = i + 1;
    }
    proof {
        assert(all.take(devices@.len() as int) =~= all);
    }
    out
}

} // verus!
