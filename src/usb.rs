use vstd::prelude::*;

verus! {

/// The bulk endpoint pair of one attachment, with the configuration,
/// interface and alternate setting that must be selected to use it.
#[derive(Clone, Copy, Debug, PartialEq, Eq, Structural)]
pub struct Endpoints {
    pub config: u8,
    pub iface: u8,
    pub setting: u8,
    pub read_addr: u8,
    pub write_addr: u8,
}

/// Direction of an endpoint, seen from the host.
#[derive(Clone, Copy, Debug, PartialEq, Eq, Structural)]
pub enum Direction {
    In,
    Out,
}

/// How an endpoint transfers data.
#[derive(Clone, Copy, Debug, PartialEq, Eq, Structural)]
pub enum TransferType {
    Control,
    Isochronous,
    Bulk,
    Interrupt,
}

/// An endpoint as its descriptor gives it.
#[derive(Clone, Copy, Debug, PartialEq, Eq, Structural)]
pub struct EndpointDesc {
    pub address: u8,
    pub direction: Direction,
    pub transfer_type: TransferType,
}

/// One alternate setting of an interface, with its endpoints in descriptor order.
#[derive(Clone, Debug)]
pub struct AltSettingDesc {
    pub interface_number: u8,
    pub setting_number: u8,
    pub endpoints: Vec<EndpointDesc>,
}

/// One interface of a configuration, with its alternate settings in
/// descriptor order.
#[derive(Clone, Debug)]
pub struct InterfaceDesc {
    pub alt_settings: Vec<AltSettingDesc>,
}

/// One configuration of a device, with its interfaces in descriptor order.
#[derive(Clone, Debug)]
pub struct ConfigDesc {
    pub number: u8,
    pub interfaces: Vec<InterfaceDesc>,
}

/// Whether `e` goes in `dir` with `tt`.
pub open spec fn endpoint_matches(e: EndpointDesc, dir: Direction, tt: TransferType) -> bool {
    e.direction == dir && e.transfer_type == tt
}

/// Address of the first endpoint of `eps` that goes in `dir` with `tt`.
pub open spec fn first_endpoint(eps: Seq<EndpointDesc>, dir: Direction, tt: TransferType) -> Option<
    u8,
>
    decreases eps.len(),
{
    if eps.len() == 0 {
        None
    } else if endpoint_matches(eps[0], dir, tt) {
        Some(eps[0].address)
    } else {
        first_endpoint(eps.drop_first(), dir, tt)
    }
}

/// The endpoint set that one alternate setting of configuration `config`
/// offers for `tt`: its first matching IN and OUT endpoints, if it has both.
pub open spec fn endpoints_of(config: u8, alt: AltSettingDesc, tt: TransferType) -> Option<
    Endpoints,
> {
    match (
        first_endpoint(alt.endpoints@, Direction::In, tt),
        first_endpoint(alt.endpoints@, Direction::Out, tt),
    ) {
        (Some(r), Some(w)) => Some(
            Endpoints {
                config,
                iface: alt.interface_number,
                setting: alt.setting_number,
                read_addr: r,
                write_addr: w,
            },
        ),
        _ => None,
    }
}

/// Whether the interfaces `ifs` have no alternate setting at all.
pub open spec fn no_alt_settings(ifs: Seq<InterfaceDesc>) -> bool {
    forall|j: int| 0 <= j < ifs.len() ==> #[trigger] ifs[j].alt_settings@.len() == 0
}

/// Whether a configuration slot offers no alternate setting (or could not be read).
pub open spec fn config_is_empty(c: Option<ConfigDesc>) -> bool {
    match c {
        None => true,
        Some(c) => no_alt_settings(c.interfaces@),
    }
}

/// Whether interface `j` of configuration slot `i` holds the first alternate
/// setting of all, in descriptor order.
pub open spec fn is_first_alt_setting(configs: Seq<Option<ConfigDesc>>, i: int, j: int) -> bool {
    &&& 0 <= i < configs.len()
    &&& configs[i] is Some
    &&& 0 <= j < configs[i]->Some_0.interfaces@.len()
    &&& configs[i]->Some_0.interfaces@[j].alt_settings@.len() > 0
    &&& forall|i2: int| 0 <= i2 < i ==> #[trigger] config_is_empty(configs[i2])
    &&& no_alt_settings(configs[i]->Some_0.interfaces@.take(j))
}

fn first_endpoint_exec(eps: &Vec<EndpointDesc>, dir: Direction, tt: TransferType) -> (r: Option<u8>)
    ensures
        r == first_endpoint(eps@, dir, tt),
{
    let mut k: usize = 0;
    assert(eps@.skip(0) =~= eps@);
    while k < eps.len()
        invariant
            k <= eps@.len(),
            first_endpoint(eps@.skip(k as int), dir, tt) == first_endpoint(eps@, dir, tt),
        decreases eps@.len() - k,
    {
        let e = eps[k];
        assert(eps@.skip(k as int)[0] == e);
        assert(eps@.skip(k as int).drop_first() =~= eps@.skip(k + 1));
        if e.direction == dir && e.transfer_type == tt {
            return Some(e.address);
        }
        k = k + 1;
    }
    assert(eps@.skip(k as int).len() == 0);
    None
}

/// Finds the endpoint pair for `transfer_type`, scanning configurations, then
/// interfaces, then alternate settings, in descriptor order. Configurations
/// that could not be read (`None`) are skipped. The first alternate setting
/// met decides: it gives its first IN and first OUT endpoint of that type, and
/// if it lacks either, the search fails rather than pair endpoints of
/// different settings.
pub fn find_endpoints(configs: &Vec<Option<ConfigDesc>>, transfer_type: TransferType) -> (r: Option<
    Endpoints,
>)
    ensures
        (forall|i: int| 0 <= i < configs@.len() ==> #[trigger] config_is_empty(configs@[i])) ==> r
            is None,
        forall|i: int, j: int|
            is_first_alt_setting(configs@, i, j) ==> r == endpoints_of(
                configs@[i]->Some_0.number,
                configs@[i]->Some_0.interfaces@[j].alt_settings@[0],
                transfer_type,
            ),
{
    let mut n: usize = 0;
    while n < configs.len()
        invariant
            n <= configs@.len(),
            forall|i2: int| 0 <= i2 < n ==> #[trigger] config_is_empty(configs@[i2]),
        decreases configs@.len() - n,
    {
        match &configs[n] {
            None => {},
            Some(config_desc) => {
                let mut m: usize = 0;
                while m < config_desc.interfaces.len()
                    invariant
                        n < configs@.len(),
                        forall|i2: int| 0 <= i2 < n ==> #[trigger] config_is_empty(configs@[i2]),
                        configs@[n as int] == Some(*config_desc),
                        m <= config_desc.interfaces@.len(),
                        no_alt_settings(config_desc.interfaces@.take(m as int)),
                    decreases config_desc.interfaces@.len() - m,
                {
                    let interface = &config_desc.interfaces[m];
                    if interface.alt_settings.len() > 0 {
                        let alt = &interface.alt_settings[0];
                        let ep_in = first_endpoint_exec(&alt.endpoints, Direction::In, transfer_type);
                        let ep_out = first_endpoint_exec(&alt.endpoints, Direction::Out, transfer_type);
                        assert(config_desc.interfaces@[m as int].alt_settings@.len() > 0);
                        assert(!config_is_empty(configs@[n as int]));
                        assert(is_first_alt_setting(configs@, n as int, m as int));
                        proof {
                            assert forall|i: int, j: int|
                                is_first_alt_setting(configs@, i, j) implies i == n && j == m by {
                                if i < n {
                                    assert(config_is_empty(configs@[i]));
                                    assert(configs@[i]->Some_0.interfaces@[j].alt_settings@.len()
                                        == 0);
                                } else if i > n {
                                    assert(config_is_empty(configs@[n as int]));
                                    assert(config_desc.interfaces@[m as int].alt_settings@.len()
                                        == 0);
                                } else if j < m {
                                    assert(config_desc.interfaces@.take(m as int)[j]
                                        == config_desc.interfaces@[j]);
                                } else if j > m {
                                    assert(configs@[i]->Some_0.interfaces@.take(j)[m as int]
                                        == config_desc.interfaces@[m as int]);
                                }
                            }
                        }
                        return match (ep_in, ep_out) {
                            (Some(read_addr), Some(write_addr)) => Some(
                                Endpoints {
                                    config: config_desc.number,
                                    iface: alt.interface_number,
                                    setting: alt.setting_number,
                                    read_addr,
                                    write_addr,
                                },
                            ),
                            _ => None,
                        };
                    }
                    assert(config_desc.interfaces@.take(m + 1) =~= config_desc.interfaces@.take(
                        m as int,
                    ).push(config_desc.interfaces@[m as int]));
                    m = m + 1;
                }
                assert(config_desc.interfaces@.take(m as int) =~= config_desc.interfaces@);
            },
        }
        n = n + 1;
    }
    proof {
        lemma_no_first_alt_setting(configs@);
    }
    None
}

proof fn lemma_no_first_alt_setting(configs: Seq<Option<ConfigDesc>>)
    requires
        forall|i2: int| 0 <= i2 < configs.len() ==> #[trigger] config_is_empty(configs[i2]),
    ensures
        forall|i: int, j: int| !is_first_alt_setting(configs, i, j),
{
    assert forall|i: int, j: int| !is_first_alt_setting(configs, i, j) by {
        if 0 <= i < configs.len() && configs[i] is Some && 0 <= j
            < configs[i]->Some_0.interfaces@.len() {
            assert(config_is_empty(configs[i]));
        }
    }
}

/// The open device of one attachment: its handle and endpoint set. The
/// endpoints are valid only for the generation that produced them.
#[derive(Debug)]
pub struct UsbInner<H> {
    pub endpoints: Endpoints,
    pub handle: H,
}

/// What a session is, seen from outside: its generation and, while a device
/// is attached, that attachment's endpoints.
pub struct SessionView {
    pub generation: u64,
    pub attached: Option<Endpoints>,
}

/// The device session: a generation counter, raised by one at every accepted
/// arrival and never reset, and the attachment, if any. It is changed only by
/// the hotplug transitions.
#[derive(Debug)]
pub struct UsbDevice<H> {
    connect_count: u64,
    inner: Option<UsbInner<H>>,
}

impl<H> View for UsbDevice<H> {
    type V = SessionView;

    closed spec fn view(&self) -> SessionView {
        SessionView {
            generation: self.connect_count,
            attached: match self.inner {
                Some(i) => Some(i.endpoints),
                None => None,
            },
        }
    }
}

/// A session after an accepted arrival with endpoints `e`.
pub open spec fn arrived(s: SessionView, e: Endpoints) -> SessionView {
    SessionView { generation: (s.generation + 1) as u64, attached: Some(e) }
}

/// A session after a departure.
pub open spec fn departed(s: SessionView) -> SessionView {
    SessionView { generation: s.generation, attached: None }
}

impl<H> UsbDevice<H> {
    /// A detached session of generation 0.
    pub fn new() -> (r: UsbDevice<H>)
        ensures
            r@ == (SessionView { generation: 0, attached: None }),
    {
        UsbDevice { connect_count: 0, inner: None }
    }

    /// The session's generation.
    pub fn connect_count(&self) -> (r: u64)
        ensures
            r == self@.generation,
    {
        self.connect_count
    }

    /// Arrival transition, once the device is configured and its interface
    /// claimed: the generation goes up by one and the session holds the new
    /// attachment. An attachment that was still held is handed back.
    pub fn device_arrived(&mut self, endpoints: Endpoints, handle: H) -> (r: Option<UsbInner<H>>)
        requires
            old(self)@.generation < u64::MAX,
        ensures
            final(self)@ == arrived(old(self)@, endpoints),
            old(self)@.attached is Some <==> r is Some,
            r is Some ==> old(self)@.attached == Some(r->Some_0.endpoints),
    {
        let previous = self.inner.take();
        self.connect_count = self.connect_count + 1;
        self.inner = Some(UsbInner { endpoints, handle });
        previous
    }

    /// Departure transition: the session becomes detached and hands back the
    /// attachment it held, so that its interface can be released. The
    /// generation stays.
    pub fn device_left(&mut self) -> (r: Option<UsbInner<H>>)
        ensures
            final(self)@ == departed(old(self)@),
            old(self)@.attached is Some <==> r is Some,
            r is Some ==> old(self)@.attached == Some(r->Some_0.endpoints),
    {
        self.inner.take()
    }

    /// A snapshot for one poll: the generation, and the handle and endpoints
    /// while a device is attached.
    pub fn snapshot(&self) -> (r: (u64, Option<(&H, Endpoints)>))
        ensures
            r.0 == self@.generation,
            r.1 is Some <==> self@.attached is Some,
            r.1 is Some ==> self@.attached == Some(r.1->Some_0.1),
    {
        match &self.inner {
            Some(inner) => (self.connect_count, Some((&inner.handle, inner.endpoints))),
            None => (self.connect_count, None),
        }
    }
}

/// A hotplug event: an accepted arrival with its endpoints, or a departure.
pub enum HotplugEvent {
    Arrival(Endpoints),
    Departure,
}

/// The session after `events`, in order.
pub open spec fn run_events(s: SessionView, events: Seq<HotplugEvent>) -> SessionView
    decreases events.len(),
{
    if events.len() == 0 {
        s
    } else {
        let prev = run_events(s, events.drop_last());
        match events.last() {
            HotplugEvent::Arrival(e) => arrived(prev, e),
            HotplugEvent::Departure => departed(prev),
        }
    }
}

/// How many arrivals `events` holds.
pub open spec fn arrivals(events: Seq<HotplugEvent>) -> nat
    decreases events.len(),
{
    if events.len() == 0 {
        0
    } else {
        arrivals(events.drop_last()) + if events.last() is Arrival {
            1nat
        } else {
            0nat
        }
    }
}

proof fn lemma_generation_counts_arrivals(s: SessionView, events: Seq<HotplugEvent>)
    requires
        s.generation + events.len() <= u64::MAX,
    ensures
        run_events(s, events).generation == s.generation + arrivals(events),
        arrivals(events) <= events.len(),
    decreases events.len(),
{
    if events.len() > 0 {
        lemma_generation_counts_arrivals(s, events.drop_last());
    }
}

proof fn lemma_arrivals_prefix(events: Seq<HotplugEvent>, i: int, j: int)
    requires
        0 <= i <= j <= events.len(),
    ensures
        arrivals(events.take(i)) <= arrivals(events.take(j)),
    decreases j - i,
{
    if i < j {
        lemma_arrivals_prefix(events, i, j - 1);
        assert(events.take(j).drop_last() =~= events.take(j - 1));
    }
}

/// Over any sequence of hotplug events, the generations that arrivals
/// produce strictly increase, and after every departure the session is
/// detached until the next arrival.
pub proof fn lemma_generation_monotonic(s: SessionView, events: Seq<HotplugEvent>, i: int, j: int)
    requires
        s.generation + events.len() <= u64::MAX,
        0 <= i < j < events.len(),
    ensures
        events[i] is Arrival && events[j] is Arrival ==> run_events(s, events.take(i + 1)).generation
            < run_events(s, events.take(j + 1)).generation,
        events[i] is Departure ==> run_events(s, events.take(i + 1)).attached is None,
        events[i] is Departure && (forall|k: int| i < k <= j ==> #[trigger] events[k] is Departure)
            ==> run_events(s, events.take(j + 1)).attached is None,
{
    lemma_generation_counts_arrivals(s, events.take(i + 1));
    lemma_generation_counts_arrivals(s, events.take(j + 1));
    lemma_arrivals_prefix(events, i + 1, j);
    assert(events.take(j + 1).drop_last() =~= events.take(j));
    assert(events.take(j + 1).last() == events[j]);
    assert(events.take(i + 1).last() == events[i]);
    assert(events.take(i + 1).drop_last() =~= events.take(i));
}

} // verus!
