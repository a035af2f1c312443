//! The device record and the persisted configuration (auto-attach list,
//! hidden-device list and application settings).

use vstd::prelude::*;
use crate::usbipd::{joined_path, join_path};
use crate::text::{
    all_space, chars_of, eq_ignore_ascii_case, eq_ignore_case, is_blank, split_chars, split_on,
    string_from, trim, trim_chars, views,
};

verus! {

/// A USB device as `usbipd state` reports it, plus the flags derived from it.
#[derive(Debug, PartialEq, Eq)]
pub struct UsbDevice {
    pub instance_id: String,
    pub hardware_id: String,
    pub description: String,
    pub is_forced: bool,
    pub bus_id: String,
    pub persisted_guid: String,
    pub stub_instance_id: String,
    pub client_ip_address: String,
    pub is_bound: bool,
    pub is_connected: bool,
    pub is_attached: bool,
    pub name: String,
}

/// The mathematical content of a [`UsbDevice`].
pub ghost struct DeviceView {
    pub instance_id: Seq<char>,
    pub hardware_id: Seq<char>,
    pub description: Seq<char>,
    pub is_forced: bool,
    pub bus_id: Seq<char>,
    pub persisted_guid: Seq<char>,
    pub stub_instance_id: Seq<char>,
    pub client_ip_address: Seq<char>,
    pub is_bound: bool,
    pub is_connected: bool,
    pub is_attached: bool,
    pub name: Seq<char>,
}

impl View for UsbDevice {
    type V = DeviceView;

    open spec fn view(&self) -> DeviceView {
        DeviceView {
            instance_id: self.instance_id@,
            hardware_id: self.hardware_id@,
            description: self.description@,
            is_forced: self.is_forced,
            bus_id: self.bus_id@,
            persisted_guid: self.persisted_guid@,
            stub_instance_id: self.stub_instance_id@,
            client_ip_address: self.client_ip_address@,
            is_bound: self.is_bound,
            is_connected: self.is_connected,
            is_attached: self.is_attached,
            name: self.name@,
        }
    }
}

/// A device with every text field empty and every flag off.
pub open spec fn empty_device() -> DeviceView {
    DeviceView {
        instance_id: Seq::empty(),
        hardware_id: Seq::empty(),
        description: Seq::empty(),
        is_forced: false,
        bus_id: Seq::empty(),
        persisted_guid: Seq::empty(),
        stub_instance_id: Seq::empty(),
        client_ip_address: Seq::empty(),
        is_bound: false,
        is_connected: false,
        is_attached: false,
        name: Seq::empty(),
    }
}

/// The views of a list of devices.
pub open spec fn device_views(v: Seq<UsbDevice>) -> Seq<DeviceView> {
    v.map_values(|d: UsbDevice| d@)
}

/// The name shown for a device: the part of the description before the
/// first comma, trimmed; without a description the hardware id, and without
/// that the bus id.
pub open spec fn short_name_of(d: DeviceView) -> Seq<char> {
    if all_space(d.description) {
        if all_space(d.hardware_id) {
            d.bus_id
        } else {
            d.hardware_id
        }
    } else {
        trim(split_on(d.description, ',')[0])
    }
}

impl Default for UsbDevice {
    fn default() -> (r: Self)
        ensures
            r@ == empty_device(),
    {
        UsbDevice {
            instance_id: String::new(),
            hardware_id: String::new(),
            description: String::new(),
            is_forced: false,
            bus_id: String::new(),
            persisted_guid: String::new(),
            stub_instance_id: String::new(),
            client_ip_address: String::new(),
            is_bound: false,
            is_connected: false,
            is_attached: false,
            name: String::new(),
        }
    }
}

impl UsbDevice {
    /// A field-by-field copy.
    pub fn duplicate(&self) -> (r: UsbDevice)
        ensures
            r@ == self@,
    {
        UsbDevice {
            instance_id: self.instance_id.clone(),
            hardware_id: self.hardware_id.clone(),
            description: self.description.clone(),
            is_forced: self.is_forced,
            bus_id: self.bus_id.clone(),
            persisted_guid: self.persisted_guid.clone(),
            stub_instance_id: self.stub_instance_id.clone(),
            client_ip_address: self.client_ip_address.clone(),
            is_bound: self.is_bound,
            is_connected: self.is_connected,
            is_attached: self.is_attached,
            name: self.name.clone(),
        }
    }

    pub fn short_name(&self) -> (r: String)
        ensures
            r@ == short_name_of(self@),
    {
        let desc = chars_of(self.description.as_str());
        if is_blank(&desc) {
            let hw = chars_of(self.hardware_id.as_str());
            if is_blank(&hw) {
                self.bus_id.clone()
            } else {
                self.hardware_id.clone()
            }
        } else {
            let pieces = split_chars(&desc, ',');
            assert(views(pieces@)[0] == pieces@[0]@);
            let first = trim_chars(&pieces[0]);
            string_from(&first)
        }
    }
}

/// Whether two strings are equal up to ASCII case.
pub fn same_id(a: &String, b: &String) -> (r: bool)
    ensures
        r == eq_ignore_case(a@, b@),
{
    let x = chars_of(a.as_str());
    let y = chars_of(b.as_str());
    eq_ignore_ascii_case(&x, &y)
}


// ---------------------------------------------------------------------------
// Device lists keyed by hardware id
// ---------------------------------------------------------------------------

/// `hw` is not empty and some entry of `list` has it as hardware id, up to
/// ASCII case.
pub open spec fn in_list(list: Seq<DeviceView>, hw: Seq<char>) -> bool {
    hw.len() > 0 && exists|i: int|
        0 <= i < list.len() && eq_ignore_case(#[trigger] list[i].hardware_id, hw)
}

/// `list` without the entries whose hardware id equals `hw` up to ASCII case,
/// order kept.
pub open spec fn without(list: Seq<DeviceView>, hw: Seq<char>) -> Seq<DeviceView>
    decreases list.len(),
{
    if list.len() == 0 {
        list
    } else {
        let rest = without(list.drop_last(), hw);
        if eq_ignore_case(list.last().hardware_id, hw) {
            rest
        } else {
            rest.push(list.last())
        }
    }
}

/// `list` with `dev` appended unless its hardware id is already listed.
pub open spec fn with_added(list: Seq<DeviceView>, dev: DeviceView) -> Seq<DeviceView> {
    if in_list(list, dev.hardware_id) {
        list
    } else {
        list.push(dev)
    }
}

/// No two entries share a hardware id up to ASCII case.
pub open spec fn distinct_ids(list: Seq<DeviceView>) -> bool {
    forall|i: int, j: int|
        0 <= i < list.len() && 0 <= j < list.len() && i != j ==> !eq_ignore_case(
            #[trigger] list[i].hardware_id,
            #[trigger] list[j].hardware_id,
        )
}

/// What `without` keeps: exactly the entries whose id differs from `hw`.
pub proof fn lemma_without(list: Seq<DeviceView>, hw: Seq<char>)
    ensures
        forall|k: int|
            0 <= k < without(list, hw).len() ==> !eq_ignore_case(
                (#[trigger] without(list, hw)[k]).hardware_id,
                hw,
            ) && list.contains(without(list, hw)[k]),
        forall|i: int|
            0 <= i < list.len() && !eq_ignore_case(#[trigger] list[i].hardware_id, hw)
                ==> without(list, hw).contains(list[i]),
        without(list, hw).len() <= list.len(),
    decreases list.len(),
{
    if list.len() > 0 {
        let init = list.drop_last();
        lemma_without(init, hw);
        let rest = without(init, hw);
        assert forall|k: int| 0 <= k < without(list, hw).len() implies !eq_ignore_case(
            (#[trigger] without(list, hw)[k]).hardware_id,
            hw,
        ) && list.contains(without(list, hw)[k]) by {
            if k < rest.len() {
                assert(without(list, hw)[k] == rest[k]);
                assert(init.contains(rest[k]));
                let m = choose|m: int| 0 <= m < init.len() && init[m] == rest[k];
                assert(list[m] == init[m]);
            } else {
                assert(list[list.len() - 1] == list.last());
            }
        }
        assert forall|i: int|
            0 <= i < list.len() && !eq_ignore_case(
                #[trigger] list[i].hardware_id,
                hw,
            ) implies without(list, hw).contains(list[i]) by {
            if i < init.len() {
                assert(init[i] == list[i]);
                assert(init.contains(init[i]));
                let m = choose|m: int| 0 <= m < rest.len() && rest[m] == init[i];
                assert(without(list, hw)[m] == rest[m]);
            } else {
                let w = without(list, hw);
                assert(w[w.len() - 1] == list.last());
            }
        }
    }
}

pub fn in_device_list(list: &Vec<UsbDevice>, hardware_id: &String) -> (r: bool)
    ensures
        r == in_list(device_views(list@), hardware_id@),
{
    if hardware_id.as_str().is_empty() {
        return false;
    }
    let ghost l = device_views(list@);
    let mut i: usize = 0;
    while i < list.len()
        invariant
            i <= list.len(),
            l == device_views(list@),
            hardware_id@.len() > 0,
            forall|j: int| 0 <= j < i ==> !eq_ignore_case(#[trigger] l[j].hardware_id, hardware_id@),
        decreases list.len() - i,
    {
        if same_id(&list[i].hardware_id, hardware_id) {
            assert(l[i as int].hardware_id == list@[i as int].hardware_id@);
            assert(eq_ignore_case(l[i as int].hardware_id, hardware_id@));
            return true;
        }
        i += 1;
    }
    false
}

pub fn remove_from_device_list(list: &Vec<UsbDevice>, hardware_id: &String) -> (r: Vec<UsbDevice>)
    ensures
        device_views(r@) == without(device_views(list@), hardware_id@),
{
    let mut r: Vec<UsbDevice> = Vec::new();
    let mut i: usize = 0;
    while i < list.len()
        invariant
            i <= list.len(),
            device_views(r@) == without(device_views(list@.take(i as int)), hardware_id@),
        decreases list.len() - i,
    {
        assert(device_views(list@.take(i + 1)).drop_last() == device_views(list@.take(i as int)));
        assert(device_views(list@.take(i + 1)).last() == list@[i as int]@);
        if !same_id(&list[i].hardware_id, hardware_id) {
            let d = list[i].duplicate();
            let ghost before = device_views(r@);
            r.push(d);
            assert(device_views(r@) == before.push(d@));
        }
        i += 1;
    }
    assert(list@.take(list.len() as int) == list@);
    r
}

/// Application settings.
pub struct AppConfig {
    pub dark_mode: bool,
    pub lang: String,
    pub close_to_tray: bool,
    pub use_bus_id: bool,
    pub specify_net_card: bool,
    pub forward_net_card: String,
}

pub ghost struct AppConfigView {
    pub dark_mode: bool,
    pub lang: Seq<char>,
    pub close_to_tray: bool,
    pub use_bus_id: bool,
    pub specify_net_card: bool,
    pub forward_net_card: Seq<char>,
}

impl View for AppConfig {
    type V = AppConfigView;

    open spec fn view(&self) -> AppConfigView {
        AppConfigView {
            dark_mode: self.dark_mode,
            lang: self.lang@,
            close_to_tray: self.close_to_tray,
            use_bus_id: self.use_bus_id,
            specify_net_card: self.specify_net_card,
            forward_net_card: self.forward_net_card@,
        }
    }
}

/// The settings of a fresh installation: light theme, no language chosen,
/// closing goes to the tray, devices addressed by hardware id, no network
/// card forced.
pub open spec fn default_app_config() -> AppConfigView {
    AppConfigView {
        dark_mode: false,
        lang: Seq::empty(),
        close_to_tray: true,
        use_bus_id: false,
        specify_net_card: false,
        forward_net_card: Seq::empty(),
    }
}

/// Missing `CloseToTray` values read as `true`.
pub fn default_true() -> (r: bool)
    ensures
        r,
{
    true
}

impl Default for AppConfig {
    fn default() -> (r: Self)
        ensures
            r@ == default_app_config(),
    {
        AppConfig {
            dark_mode: false,
            lang: String::new(),
            close_to_tray: default_true(),
            use_bus_id: false,
            specify_net_card: false,
            forward_net_card: String::new(),
        }
    }
}

impl AppConfig {
    pub fn duplicate(&self) -> (r: AppConfig)
        ensures
            r@ == self@,
    {
        AppConfig {
            dark_mode: self.dark_mode,
            lang: self.lang.clone(),
            close_to_tray: self.close_to_tray,
            use_bus_id: self.use_bus_id,
            specify_net_card: self.specify_net_card,
            forward_net_card: self.forward_net_card.clone(),
        }
    }
}

/// Everything stored in `config.json`.
pub struct SystemConfig {
    pub app_config: AppConfig,
    pub auto_attach_device_list: Vec<UsbDevice>,
    pub filtered_device_list: Vec<UsbDevice>,
}

pub ghost struct SystemConfigView {
    pub app_config: AppConfigView,
    pub auto_list: Seq<DeviceView>,
    pub filter_list: Seq<DeviceView>,
}

impl View for SystemConfig {
    type V = SystemConfigView;

    open spec fn view(&self) -> SystemConfigView {
        SystemConfigView {
            app_config: self.app_config@,
            auto_list: device_views(self.auto_attach_device_list@),
            filter_list: device_views(self.filtered_device_list@),
        }
    }
}

pub open spec fn default_system_config() -> SystemConfigView {
    SystemConfigView {
        app_config: default_app_config(),
        auto_list: Seq::empty(),
        filter_list: Seq::empty(),
    }
}

impl Default for SystemConfig {
    fn default() -> (r: Self)
        ensures
            r@ == default_system_config(),
    {
        let r = SystemConfig {
            app_config: AppConfig::default(),
            auto_attach_device_list: Vec::new(),
            filtered_device_list: Vec::new(),
        };
        assert(device_views(r.auto_attach_device_list@) =~= Seq::<DeviceView>::empty());
        assert(device_views(r.filtered_device_list@) =~= Seq::<DeviceView>::empty());
        r
    }
}

impl SystemConfig {
    pub fn is_in_auto_list(&self, hardware_id: &String) -> (r: bool)
        ensures
            r == in_list(self@.auto_list, hardware_id@),
    {
        in_device_list(&self.auto_attach_device_list, hardware_id)
    }

    pub fn is_in_filter_list(&self, hardware_id: &String) -> (r: bool)
        ensures
            r == in_list(self@.filter_list, hardware_id@),
    {
        in_device_list(&self.filtered_device_list, hardware_id)
    }

    pub fn add_to_auto_list(&mut self, dev: &UsbDevice)
        ensures
            final(self)@ == (SystemConfigView {
                auto_list: with_added(old(self)@.auto_list, dev@),
                ..old(self)@
            }),
    {
        if !self.is_in_auto_list(&dev.hardware_id) {
            let d = dev.duplicate();
            self.auto_attach_device_list.push(d);
            assert(device_views(self.auto_attach_device_list@) =~= device_views(
                old(self).auto_attach_device_list@,
            ).push(dev@));
        }
    }

    pub fn remove_from_auto_list(&mut self, hardware_id: &String)
        ensures
            final(self)@ == (SystemConfigView {
                auto_list: without(old(self)@.auto_list, hardware_id@),
                ..old(self)@
            }),
    {
        self.auto_attach_device_list = remove_from_device_list(
            &self.auto_attach_device_list,
            hardware_id,
        );
    }

    pub fn add_to_filter_list(&mut self, dev: &UsbDevice)
        ensures
            final(self)@ == (SystemConfigView {
                filter_list: with_added(old(self)@.filter_list, dev@),
                ..old(self)@
            }),
    {
        if !self.is_in_filter_list(&dev.hardware_id) {
            let d = dev.duplicate();
            self.filtered_device_list.push(d);
            assert(device_views(self.filtered_device_list@) =~= device_views(
                old(self).filtered_device_list@,
            ).push(dev@));
        }
    }

    pub fn remove_from_filter_list(&mut self, hardware_id: &String)
        ensures
            final(self)@ == (SystemConfigView {
                filter_list: without(old(self)@.filter_list, hardware_id@),
                ..old(self)@
            }),
    {
        self.filtered_device_list = remove_from_device_list(
            &self.filtered_device_list,
            hardware_id,
        );
    }

    pub fn reset(&mut self)
        ensures
            final(self)@ == default_system_config(),
    {
        *self = SystemConfig::default();
    }
}


// ---------------------------------------------------------------------------
// Laws of the device lists
// ---------------------------------------------------------------------------

/// After removing an id, the list holds no entry with that id, and the
/// membership of every other id is unchanged (ids compare up to ASCII case).
pub proof fn law_remove_then_lookup(list: Seq<DeviceView>, hw: Seq<char>, other: Seq<char>)
    ensures
        !in_list(without(list, hw), hw),
        in_list(without(list, hw), other) == (in_list(list, other) && !eq_ignore_case(hw, other)),
{
    lemma_without(list, hw);
    let w = without(list, hw);
    if in_list(w, hw) {
        let k = choose|k: int| 0 <= k < w.len() && eq_ignore_case(#[trigger] w[k].hardware_id, hw);
        assert(!eq_ignore_case(w[k].hardware_id, hw));
    }
    if in_list(w, other) {
        let k = choose|k: int|
            0 <= k < w.len() && eq_ignore_case(#[trigger] w[k].hardware_id, other);
        assert(!eq_ignore_case(w[k].hardware_id, hw));
        assert(list.contains(w[k]));
        let m = choose|m: int| 0 <= m < list.len() && list[m] == w[k];
        assert(eq_ignore_case(list[m].hardware_id, other));
    }
    if in_list(list, other) && !eq_ignore_case(hw, other) {
        let i = choose|i: int|
            0 <= i < list.len() && eq_ignore_case(#[trigger] list[i].hardware_id, other);
        assert(!eq_ignore_case(list[i].hardware_id, hw));
        assert(w.contains(list[i]));
        let k = choose|k: int| 0 <= k < w.len() && w[k] == list[i];
        assert(eq_ignore_case(w[k].hardware_id, other));
    }
}

/// After adding a device with a non-empty id, that id is listed; adding the
/// same device twice is the same as adding it once.
pub proof fn law_add_then_lookup(list: Seq<DeviceView>, dev: DeviceView)
    requires
        dev.hardware_id.len() > 0,
    ensures
        in_list(with_added(list, dev), dev.hardware_id),
        with_added(with_added(list, dev), dev) == with_added(list, dev),
{
    let l2 = with_added(list, dev);
    if !in_list(list, dev.hardware_id) {
        assert(l2[list.len() as int] == dev);
        assert(eq_ignore_case(l2[list.len() as int].hardware_id, dev.hardware_id));
    }
}

proof fn lemma_without_none(list: Seq<DeviceView>, hw: Seq<char>)
    requires
        forall|i: int| 0 <= i < list.len() ==> !eq_ignore_case(#[trigger] list[i].hardware_id, hw),
    ensures
        without(list, hw) == list,
    decreases list.len(),
{
    if list.len() > 0 {
        let init = list.drop_last();
        assert forall|i: int| 0 <= i < init.len() implies !eq_ignore_case(
            #[trigger] init[i].hardware_id,
            hw,
        ) by {
            assert(init[i] == list[i]);
        }
        lemma_without_none(init, hw);
        assert(!eq_ignore_case(list.last().hardware_id, hw));
        assert(init.push(list.last()) == list);
    }
}

/// Adding a device that is not listed, then removing its id written in any
/// ASCII case, gives back the list as it was, without that id.
pub proof fn law_add_then_remove_restores(list: Seq<DeviceView>, dev: DeviceView, hw: Seq<char>)
    requires
        dev.hardware_id.len() > 0,
        !in_list(list, dev.hardware_id),
        eq_ignore_case(hw, dev.hardware_id),
    ensures
        without(with_added(list, dev), hw) == list,
        !in_list(without(with_added(list, dev), hw), dev.hardware_id),
{
    assert forall|i: int| 0 <= i < list.len() implies !eq_ignore_case(
        #[trigger] list[i].hardware_id,
        hw,
    ) by {
        if eq_ignore_case(list[i].hardware_id, hw) {
            assert(eq_ignore_case(list[i].hardware_id, dev.hardware_id));
        }
    }
    lemma_without_none(list, hw);
    let l2 = list.push(dev);
    assert(l2.drop_last() == list);
    assert(l2.last() == dev);
}

/// Adding a device with a non-empty id and removing ids keep a list free of
/// duplicate ids.
pub proof fn law_lists_stay_distinct(list: Seq<DeviceView>, dev: DeviceView, hw: Seq<char>)
    requires
        distinct_ids(list),
        dev.hardware_id.len() > 0,
    ensures
        distinct_ids(with_added(list, dev)),
        distinct_ids(without(list, hw)),
{
    if !in_list(list, dev.hardware_id) {
        let l2 = list.push(dev);
        assert forall|i: int, j: int|
            0 <= i < l2.len() && 0 <= j < l2.len() && i != j implies !eq_ignore_case(
            #[trigger] l2[i].hardware_id,
            #[trigger] l2[j].hardware_id,
        ) by {
            if i == list.len() {
                assert(!eq_ignore_case(list[j].hardware_id, dev.hardware_id));
            } else if j == list.len() {
                assert(!eq_ignore_case(list[i].hardware_id, dev.hardware_id));
            } else {
                assert(l2[i] == list[i] && l2[j] == list[j]);
            }
        }
    }
    lemma_without_distinct(list, hw);
}

proof fn lemma_without_distinct(list: Seq<DeviceView>, hw: Seq<char>)
    requires
        distinct_ids(list),
    ensures
        distinct_ids(without(list, hw)),
    decreases list.len(),
{
    if list.len() > 0 {
        let init = list.drop_last();
        assert forall|i: int, j: int|
            0 <= i < init.len() && 0 <= j < init.len() && i != j implies !eq_ignore_case(
            #[trigger] init[i].hardware_id,
            #[trigger] init[j].hardware_id,
        ) by {
            assert(init[i] == list[i] && init[j] == list[j]);
        }
        lemma_without_distinct(init, hw);
        lemma_without(init, hw);
        let rest = without(init, hw);
        if !eq_ignore_case(list.last().hardware_id, hw) {
            let w = rest.push(list.last());
            assert forall|i: int, j: int|
                0 <= i < w.len() && 0 <= j < w.len() && i != j implies !eq_ignore_case(
                #[trigger] w[i].hardware_id,
                #[trigger] w[j].hardware_id,
            ) by {
                if i == rest.len() || j == rest.len() {
                    let k = if i == rest.len() {
                        j
                    } else {
                        i
                    };
                    assert(w[k] == rest[k]);
                    assert(init.contains(rest[k]));
                    let m = choose|m: int| 0 <= m < init.len() && init[m] == rest[k];
                    assert(list[m] == init[m]);
                    assert(!eq_ignore_case(list[m].hardware_id, list[list.len() - 1].hardware_id));
                } else {
                    assert(w[i] == rest[i] && w[j] == rest[j]);
                }
            }
        }
    }
}

// ---------------------------------------------------------------------------
// Where the configuration lives
// ---------------------------------------------------------------------------

/// The folder name of the program's data.
pub open spec fn app_dir_name() -> Seq<char> {
    "WSL USB Manager"@
}

/// The program's data folder: under `%APPDATA%` when it is set, else under
/// `%USERPROFILE%\AppData\Roaming`, else relative to the working folder.
pub open spec fn app_data_dir_of(appdata: Option<Seq<char>>, profile: Option<Seq<char>>) -> Seq<char> {
    match appdata {
        Some(a) => joined_path(a, app_dir_name()),
        None => match profile {
            Some(p) => joined_path(joined_path(joined_path(p, "AppData"@), "Roaming"@), app_dir_name()),
            None => app_dir_name(),
        },
    }
}

pub open spec fn opt_text(o: Option<String>) -> Option<Seq<char>> {
    match o {
        Some(s) => Some(s@),
        None => None,
    }
}

/// The data folder from the values of `APPDATA` and `USERPROFILE` (each
/// `None` when unset).
pub fn app_data_dir(appdata: Option<String>, profile: Option<String>) -> (r: String)
    ensures
        r@ == app_data_dir_of(opt_text(appdata), opt_text(profile)),
{
    match appdata {
        Some(a) => join_path(a.as_str(), "WSL USB Manager"),
        None => match profile {
            Some(p) => {
                let x = join_path(p.as_str(), "AppData");
                let y = join_path(x.as_str(), "Roaming");
                join_path(y.as_str(), "WSL USB Manager")
            },
            None => "WSL USB Manager".to_owned(),
        },
    }
}

/// `config.json` in the data folder.
pub fn config_path(app_data: &str) -> (r: String)
    ensures
        r@ == joined_path(app_data@, "config.json"@),
{
    join_path(app_data, "config.json")
}

} // verus!
