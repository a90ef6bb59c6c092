//! The devices of other users: how far they are trusted, and whether they hold up a
//! message.

use vstd::prelude::*;
use crate::client::PanClient;
use crate::ids::is_user_id;
use crate::text::same;

verus! {

/// How far the user of a session trusts a device.
#[derive(Debug, Clone, Copy, PartialEq, Eq, Structural)]
pub enum Trust {
    Verified,
    BlackListed,
    Ignored,
    Unset,
}

/// What is known of a device.
#[derive(Debug)]
pub struct DeviceFacts {
    pub user_id: String,
    pub device_id: String,
    pub display_name: Option<String>,
    pub ed25519: Option<String>,
    pub trust: Trust,
    /// Whether the owner of the device is verified and has signed it.
    pub cross_signed: bool,
}

/// What is known of a device.
#[verifier::ext_equal]
pub struct DeviceView {
    pub user_id: Seq<char>,
    pub device_id: Seq<char>,
    pub display_name: Option<Seq<char>>,
    pub ed25519: Option<Seq<char>>,
    pub trust: Trust,
    pub cross_signed: bool,
}

impl View for DeviceFacts {
    type V = DeviceView;

    open spec fn view(&self) -> DeviceView {
        DeviceView {
            user_id: self.user_id@,
            device_id: self.device_id@,
            display_name: crate::client::sync::optional_text(self.display_name),
            ed25519: crate::client::sync::optional_text(self.ed25519),
            trust: self.trust,
            cross_signed: self.cross_signed,
        }
    }
}

/// What is known of a list of devices.
pub open spec fn device_views(devices: Seq<DeviceFacts>) -> Seq<DeviceView> {
    devices.map_values(|d: DeviceFacts| d@)
}

/// The word for how far a device is trusted.
pub open spec fn trust_word(trust: Trust, cross_signed: bool) -> Seq<char> {
    match trust {
        Trust::Verified => "verified"@,
        Trust::BlackListed => "blacklisted"@,
        Trust::Ignored => "ignored"@,
        Trust::Unset => if cross_signed {
            "cross-signing-verified"@
        } else {
            "unset"@
        },
    }
}

/// The word for how far a device is trusted.
pub fn trust_state(trust: Trust, cross_signed: bool) -> (r: &'static str)
    ensures
        r@ == trust_word(trust, cross_signed),
{
    match trust {
        Trust::Verified => "verified",
        Trust::BlackListed => "blacklisted",
        Trust::Ignored => "ignored",
        Trust::Unset => if cross_signed {
            "cross-signing-verified"
        } else {
            "unset"
        },
    }
}

/// A text, or the empty one.
pub open spec fn or_empty(s: Option<Seq<char>>) -> Seq<char> {
    match s {
        Some(t) => t,
        None => ""@,
    }
}

/// What a user interface is told of a device.
pub open spec fn device_row(d: DeviceView) -> Seq<(Seq<char>, Seq<char>)> {
    seq![
        ("user_id"@, d.user_id),
        ("device_id"@, d.device_id),
        ("device_display_name"@, or_empty(d.display_name)),
        ("ed25519"@, or_empty(d.ed25519)),
        ("trust_state"@, trust_word(d.trust, d.cross_signed)),
    ]
}

/// A text, or the empty one.
fn text_or_empty(s: &Option<String>) -> (r: String)
    ensures
        r@ == or_empty(crate::client::sync::optional_text(*s)),
{
    match s {
        Some(t) => t.clone(),
        None => "".to_owned(),
    }
}

/// What a user interface is told of a device.
pub fn describe_device(d: &DeviceFacts) -> (r: Vec<(String, String)>)
    ensures
        crate::messages::pair_views(r@) == device_row(d@),
{
    let mut row: Vec<(String, String)> = Vec::new();
    row.push(("user_id".to_owned(), d.user_id.clone()));
    row.push(("device_id".to_owned(), d.device_id.clone()));
    row.push(("device_display_name".to_owned(), text_or_empty(&d.display_name)));
    row.push(("ed25519".to_owned(), text_or_empty(&d.ed25519)));
    row.push(("trust_state".to_owned(), trust_state(d.trust, d.cross_signed).to_owned()));
    assert(crate::messages::pair_views(row@) =~= device_row(d@));
    row
}

/// What a user interface is told of a list of devices.
pub open spec fn device_rows(devices: Seq<DeviceView>) -> Seq<Seq<(Seq<char>, Seq<char>)>> {
    devices.map_values(|d: DeviceView| device_row(d))
}

/// What a list of rows means.
pub open spec fn row_views(rows: Seq<Vec<(String, String)>>) -> Seq<Seq<(Seq<char>, Seq<char>)>> {
    rows.map_values(|r: Vec<(String, String)>| crate::messages::pair_views(r@))
}

impl PanClient {
    /// What a user interface is told of the devices of a user; nothing where there can be
    /// no such user.
    pub fn list_user_devices(user_id: &str, devices: &Vec<DeviceFacts>) -> (r: Vec<
        Vec<(String, String)>,
    >)
        ensures
            row_views(r@) == if crate::ids::user_id_valid(user_id@) {
                device_rows(device_views(devices@))
            } else {
                Seq::empty()
            },
    {
        let mut rows: Vec<Vec<(String, String)>> = Vec::new();
        if !is_user_id(user_id) {
            assert(row_views(rows@) =~= Seq::empty());
            return rows;
        }
        let mut i: usize = 0;
        while i < devices.len()
            invariant
                i <= devices@.len(),
                rows@.len() == i,
                forall|j: int|
                    0 <= j < i ==> crate::messages::pair_views((#[trigger] rows@[j])@)
                        == device_row(devices@[j]@),
            decreases devices@.len() - i,
        {
            rows.push(describe_device(&devices[i]));
            i = i + 1;
        }
        assert(row_views(rows@) =~= device_rows(device_views(devices@)));
        rows
    }

    /// What a user interface is told of all devices: nothing, since devices are known user
    /// by user.
    pub fn list_all_devices(&self) -> (r: Vec<Vec<(String, String)>>)
        ensures
            r@.len() == 0,
    {
        Vec::new()
    }
}

/// Whether a device holds up a message of `user`: it is somebody else's, and nothing
/// was decided about it.
pub open spec fn blocks(user: Seq<char>, d: DeviceView) -> bool {
    d.user_id != user && d.trust == Trust::Unset && !d.cross_signed
}

/// The devices that hold up a message of `user`: users and devices.
pub open spec fn blocking(user: Seq<char>, devices: Seq<DeviceView>) -> Seq<
    (Seq<char>, Seq<char>),
>
    decreases devices.len(),
{
    if devices.len() == 0 {
        Seq::empty()
    } else {
        let before = blocking(user, devices.drop_last());
        let d = devices.last();
        if blocks(user, d) {
            before.push((d.user_id, d.device_id))
        } else {
            before
        }
    }
}

/// The devices that hold up a message of `user`: users and devices.
pub fn blocking_devices(user: &str, devices: &Vec<DeviceFacts>) -> (r: Vec<(String, String)>)
    ensures
        crate::messages::pair_views(r@) == blocking(user@, device_views(devices@)),
{
    let mut out: Vec<(String, String)> = Vec::new();
    let ghost all = device_views(devices@);
    let mut i: usize = 0;
    assert(crate::messages::pair_views(out@) =~= blocking(user@, all.take(0)));
    while i < devices.len()
        invariant
            i <= devices@.len(),
            all == device_views(devices@),
            crate::messages::pair_views(out@) == blocking(user@, all.take(i as int)),
        decreases devices@.len() - i,
    {
        let d = &devices[i];
        assert(all.take(i + 1).drop_last() == all.take(i as int));
        assert(all.take(i + 1).last() == d@);
        if !same(d.user_id.as_str(), user) && d.trust == Trust::Unset && !d.cross_signed {
            let ghost before = crate::messages::pair_views(out@);
            out.push((d.user_id.clone(), d.device_id.clone()));
            assert(crate::messages::pair_views(out@) =~= before.push((d.user_id@, d.device_id@)));
        }
        i = i + 1;
    }
    assert(all.take(i as int) == all);
    out
}

/// No device holds up a message exactly where each is one's own, was decided about, or
/// is cross-signed.
pub proof fn nothing_blocks(user: Seq<char>, devices: Seq<DeviceView>)
    ensures
        blocking(user, devices).len() == 0 <==> forall|i: int|
            0 <= i < devices.len() ==> !blocks(user, #[trigger] devices[i]),
    decreases devices.len(),
{
    if devices.len() > 0 {
        let before = devices.drop_last();
        nothing_blocks(user, before);
        if blocking(user, devices).len() == 0 {
            assert forall|i: int| 0 <= i < devices.len() implies !blocks(
                user,
                #[trigger] devices[i],
            ) by {
                if i < before.len() {
                    assert(before[i] == devices[i]);
                }
            }
        }
        if forall|i: int| 0 <= i < devices.len() ==> !blocks(user, #[trigger] devices[i]) {
            assert(!blocks(user, devices[devices.len() - 1]));
            assert forall|i: int| 0 <= i < before.len() implies !blocks(
                user,
                #[trigger] before[i],
            ) by {
                assert(before[i] == devices[i]);
            }
        }
    }
}

} // verus!
