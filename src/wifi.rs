use vstd::prelude::*;

use crate::classify::{classify, verdict, Category, Outcome};
use crate::error::{CreateStep, WFError, WFErrorView};
use crate::parse::{listing_of, parse_listing, Network, NetworkView};

verus! {

/// The wireless adapter that every command is scoped to.
pub struct WiFi {
    interface: String,
}

impl WiFi {
    /// The name of the adapter.
    pub closed spec fn interface_name(&self) -> Seq<char> {
        self.interface@
    }

    /// A handle on the adapter named `interface`.
    pub fn new(interface: String) -> (r: Self)
        ensures
            r.interface_name() == interface@,
    {
        Self { interface }
    }

    /// The name of the adapter.
    pub fn interface(&self) -> (r: &String)
        ensures
            r@ == self.interface_name(),
    {
        &self.interface
    }

    /// The adapters known by name: a fixed placeholder list, since adapter
    /// discovery is left to the caller.
    pub fn interfaces() -> (r: Vec<String>)
        ensures
            r@.len() == 1,
            r@[0]@ == "lol"@,
    {
        vec!["lol".to_owned()]
    }
}

/// The arguments, as character sequences.
pub open spec fn args_of(v: Seq<String>) -> Seq<Seq<char>> {
    v.map_values(|s: String| s@)
}

pub open spec fn connect_args(ifc: Seq<char>, ssid: Seq<char>, password: Seq<char>) -> Seq<
    Seq<char>,
> {
    seq!["device"@, "wifi"@, "connect"@, ssid, "password"@, password, "ifname"@, ifc]
}

pub open spec fn disconnect_args(ifc: Seq<char>) -> Seq<Seq<char>> {
    seq!["device"@, "disconnect"@, ifc]
}

pub open spec fn rescan_args(ifc: Seq<char>) -> Seq<Seq<char>> {
    seq!["device"@, "wifi"@, "rescan"@, "ifname"@, ifc]
}

pub open spec fn list_args(ifc: Seq<char>) -> Seq<Seq<char>> {
    seq!["device"@, "wifi"@, "list"@, "ifname"@, ifc]
}

pub open spec fn add_args(ifc: Seq<char>, ssid: Seq<char>) -> Seq<Seq<char>> {
    seq![
        "con"@,
        "add"@,
        "type"@,
        "wifi"@,
        "ifname"@,
        ifc,
        "con-name"@,
        "Hotspot"@,
        "autoconnect"@,
        "yes"@,
        "ssid"@,
        ssid,
    ]
}

pub open spec fn mode_args() -> Seq<Seq<char>> {
    seq![
        "con"@,
        "modify"@,
        "Hotspot"@,
        "802-11-wireless.mode"@,
        "ap"@,
        "802-11-wireless.band"@,
        "bg"@,
        "ipv4.method"@,
        "shared"@,
    ]
}

pub open spec fn security_args() -> Seq<Seq<char>> {
    seq!["con"@, "modify"@, "Hotspot"@, "wifi-sec.key-mgmt"@, "wpa-psk"@]
}

pub open spec fn key_args(password: Seq<char>) -> Seq<Seq<char>> {
    seq!["con"@, "modify"@, "Hotspot"@, "wifi-sec.psk"@, password]
}

/// The key that the hotspot gets when none is given.
pub open spec fn default_passphrase() -> Seq<char> {
    "parola_default"@
}

/// The hotspot's key: `password`, or the default passphrase where it is `None`.
pub open spec fn key_or_default(password: Option<String>) -> Seq<char> {
    match password {
        Some(p) => p@,
        None => default_passphrase(),
    }
}

pub open spec fn up_args() -> Seq<Seq<char>> {
    seq!["con"@, "up"@, "Hotspot"@]
}

pub open spec fn down_args() -> Seq<Seq<char>> {
    seq!["con"@, "down"@, "Hotspot"@]
}

/// One command of an operation: the network manager's arguments, and what the
/// command is run for.
pub struct Step {
    pub args: Vec<String>,
    pub category: Category,
}

pub struct StepView {
    pub args: Seq<Seq<char>>,
    pub category: Category,
}

impl View for Step {
    type V = StepView;

    open spec fn view(&self) -> StepView {
        StepView { args: args_of(self.args@), category: self.category }
    }
}

/// What a successful operation gives back.
#[derive(Debug)]
pub enum Reply {
    Unit,
    Networks(Vec<Network>),
}

pub enum ReplyView {
    Unit,
    Networks(Seq<NetworkView>),
}

impl View for Reply {
    type V = ReplyView;

    open spec fn view(&self) -> ReplyView {
        match self {
            Reply::Unit => ReplyView::Unit,
            Reply::Networks(v) => ReplyView::Networks(v@.map_values(|n: Network| n@)),
        }
    }
}

/// What the caller of a session does next: run the network manager with
/// these arguments and hand back how it ended, or take the operation's result.
#[derive(Debug)]
pub enum Action {
    Run(Vec<String>),
    Finish(Result<Reply, WFError>),
}

pub enum ActionView {
    Run(Seq<Seq<char>>),
    Finish(Result<ReplyView, WFErrorView>),
}

impl View for Action {
    type V = ActionView;

    open spec fn view(&self) -> ActionView {
        match self {
            Action::Run(a) => ActionView::Run(args_of(a@)),
            Action::Finish(Ok(r)) => ActionView::Finish(Ok(r@)),
            Action::Finish(Err(e)) => ActionView::Finish(Err(e@)),
        }
    }
}

/// One operation in progress: its commands, which one runs now, whether the
/// last one's output is a network listing, and whether it has finished.
pub struct Session {
    steps: Vec<Step>,
    at: usize,
    listing: bool,
    done: bool,
}

pub struct SessionView {
    pub steps: Seq<StepView>,
    pub at: int,
    pub listing: bool,
    pub done: bool,
}

impl View for Session {
    type V = SessionView;

    closed spec fn view(&self) -> SessionView {
        SessionView {
            steps: self.steps@.map_values(|s: Step| s@),
            at: self.at as int,
            listing: self.listing,
            done: self.done,
        }
    }
}

/// A session that starts at its first command.
pub open spec fn fresh(v: SessionView, steps: Seq<StepView>, listing: bool) -> bool {
    v == SessionView { steps, at: 0, listing, done: false }
}

/// What a session does when the command it runs now ended with `o`: a failure
/// ends it with that failure, so that no later command runs; a success runs the
/// next command, or ends it with the result where none is left.
pub open spec fn next_action(s: SessionView, o: Outcome) -> ActionView {
    match verdict(s.steps[s.at].category, o) {
        Err(e) => ActionView::Finish(Err(e)),
        Ok(out) => if s.at + 1 < s.steps.len() {
            ActionView::Run(s.steps[s.at + 1].args)
        } else if s.listing {
            ActionView::Finish(Ok(ReplyView::Networks(listing_of(out))))
        } else {
            ActionView::Finish(Ok(ReplyView::Unit))
        },
    }
}

/// The session after the command it runs now ended with `o`.
pub open spec fn next_state(s: SessionView, o: Outcome) -> SessionView {
    if next_action(s, o) is Run {
        SessionView { at: s.at + 1, ..s }
    } else {
        SessionView { done: true, ..s }
    }
}

fn clone_args(v: &Vec<String>) -> (r: Vec<String>)
    ensures
        args_of(r@) == args_of(v@),
{
    let mut out: Vec<String> = Vec::new();
    let mut i: usize = 0;
    while i < v.len()
        invariant
            i <= v@.len(),
            out@.len() == i,
            forall|j: int| 0 <= j < i ==> #[trigger] out@[j]@ == v@[j]@,
        decreases v@.len() - i,
    {
        out.push(v[i].clone());
        i = i + 1;
    }
    assert(args_of(out@) =~= args_of(v@));
    out
}

fn word(s: &str) -> (r: String)
    ensures
        r@ == s@,
{
    s.to_owned()
}

impl Session {
    fn single(args: Vec<String>, category: Category) -> (r: Session)
        ensures
            fresh(r@, seq![StepView { args: args_of(args@), category }], false),
    {
        let r = Session { steps: vec![Step { args, category }], at: 0, listing: false, done: false };
        assert(r@.steps =~= seq![StepView { args: args_of(args@), category }]);
        r
    }

    /// Joining the network `ssid` with `password` on the adapter of `wifi`.
    pub fn connect(wifi: &WiFi, ssid: String, password: String) -> (r: Session)
        ensures
            fresh(
                r@,
                seq![
                    StepView {
                        args: connect_args(wifi.interface_name(), ssid@, password@),
                        category: Category::Connect,
                    },
                ],
                false,
            ),
    {
        let args = vec![
            word("device"),
            word("wifi"),
            word("connect"),
            ssid,
            word("password"),
            password,
            word("ifname"),
            wifi.interface.clone(),
        ];
        assert(args_of(args@) =~= connect_args(wifi.interface_name(), ssid@, password@));
        Session::single(args, Category::Connect)
    }

    /// Leaving the network that the adapter of `wifi` is joined to.
    pub fn disconnect(wifi: &WiFi) -> (r: Session)
        ensures
            fresh(
                r@,
                seq![
                    StepView {
                        args: disconnect_args(wifi.interface_name()),
                        category: Category::Disconnect,
                    },
                ],
                false,
            ),
    {
        let args = vec![word("device"), word("disconnect"), wifi.interface.clone()];
        assert(args_of(args@) =~= disconnect_args(wifi.interface_name()));
        Session::single(args, Category::Disconnect)
    }

    /// Scanning: a rescan that must print nothing, then a listing whose output
    /// gives the networks.
    pub fn scan(wifi: &WiFi) -> (r: Session)
        ensures
            fresh(
                r@,
                seq![
                    StepView { args: rescan_args(wifi.interface_name()), category: Category::Rescan },
                    StepView { args: list_args(wifi.interface_name()), category: Category::List },
                ],
                true,
            ),
    {
        let rescan = vec![
            word("device"),
            word("wifi"),
            word("rescan"),
            word("ifname"),
            wifi.interface.clone(),
        ];
        let list = vec![
            word("device"),
            word("wifi"),
            word("list"),
            word("ifname"),
            wifi.interface.clone(),
        ];
        assert(args_of(rescan@) =~= rescan_args(wifi.interface_name()));
        assert(args_of(list@) =~= list_args(wifi.interface_name()));
        let r = Session {
            steps: vec![
                Step { args: rescan, category: Category::Rescan },
                Step { args: list, category: Category::List },
            ],
            at: 0,
            listing: true,
            done: false,
        };
        assert(r@.steps =~= seq![
            StepView { args: rescan_args(wifi.interface_name()), category: Category::Rescan },
            StepView { args: list_args(wifi.interface_name()), category: Category::List },
        ]);
        r
    }

    /// Setting up the hotspot profile for `ssid`, keyed with `password`, or
    /// with the default passphrase where none is given: adding it, then
    /// setting its mode, its key management and its key.
    pub fn create(wifi: &WiFi, ssid: String, password: Option<String>) -> (r: Session)
        ensures
            fresh(
                r@,
                seq![
                    StepView {
                        args: add_args(wifi.interface_name(), ssid@),
                        category: Category::Create(CreateStep::Add),
                    },
                    StepView { args: mode_args(), category: Category::Create(CreateStep::Mode) },
                    StepView {
                        args: security_args(),
                        category: Category::Create(CreateStep::Security),
                    },
                    StepView {
                        args: key_args(key_or_default(password)),
                        category: Category::Create(CreateStep::Key),
                    },
                ],
                false,
            ),
    {
        let ghost secret = key_or_default(password);
        let add = vec![
            word("con"),
            word("add"),
            word("type"),
            word("wifi"),
            word("ifname"),
            wifi.interface.clone(),
            word("con-name"),
            word("Hotspot"),
            word("autoconnect"),
            word("yes"),
            word("ssid"),
            ssid,
        ];
        let mode = vec![
            word("con"),
            word("modify"),
            word("Hotspot"),
            word("802-11-wireless.mode"),
            word("ap"),
            word("802-11-wireless.band"),
            word("bg"),
            word("ipv4.method"),
            word("shared"),
        ];
        let security = vec![
            word("con"),
            word("modify"),
            word("Hotspot"),
            word("wifi-sec.key-mgmt"),
            word("wpa-psk"),
        ];
        let psk = match password {
            Some(p) => p,
            None => word("parola_default"),
        };
        let key = vec![word("con"), word("modify"), word("Hotspot"), word("wifi-sec.psk"), psk];
        assert(args_of(add@) =~= add_args(wifi.interface_name(), ssid@));
        assert(args_of(mode@) =~= mode_args());
        assert(args_of(security@) =~= security_args());
        assert(args_of(key@) =~= key_args(secret));
        let r = Session {
            steps: vec![
                Step { args: add, category: Category::Create(CreateStep::Add) },
                Step { args: mode, category: Category::Create(CreateStep::Mode) },
                Step { args: security, category: Category::Create(CreateStep::Security) },
                Step { args: key, category: Category::Create(CreateStep::Key) },
            ],
            at: 0,
            listing: false,
            done: false,
        };
        assert(r@.steps =~= seq![
            StepView {
                args: add_args(wifi.interface_name(), ssid@),
                category: Category::Create(CreateStep::Add),
            },
            StepView { args: mode_args(), category: Category::Create(CreateStep::Mode) },
            StepView { args: security_args(), category: Category::Create(CreateStep::Security) },
            StepView { args: key_args(secret), category: Category::Create(CreateStep::Key) },
        ]);
        r
    }

    /// Bringing the hotspot profile up.
    pub fn start(wifi: &WiFi) -> (r: Session)
        ensures
            fresh(r@, seq![StepView { args: up_args(), category: Category::Up }], false),
    {
        let args = vec![word("con"), word("up"), word("Hotspot")];
        assert(args_of(args@) =~= up_args());
        Session::single(args, Category::Up)
    }

    /// Bringing the hotspot profile down.
    pub fn stop(wifi: &WiFi) -> (r: Session)
        ensures
            fresh(r@, seq![StepView { args: down_args(), category: Category::Down }], false),
    {
        let args = vec![word("con"), word("down"), word("Hotspot")];
        assert(args_of(args@) =~= down_args());
        Session::single(args, Category::Down)
    }

    /// Whether the session points at one of its commands.
    pub open spec fn well_formed(&self) -> bool {
        0 <= self@.at < self@.steps.len()
    }

    /// The arguments of the command to run now.
    pub fn command(&self) -> (r: Vec<String>)
        requires
            self.well_formed(),
        ensures
            args_of(r@) == self@.steps[self@.at].args,
    {
        clone_args(&self.steps[self.at].args)
    }

    /// Whether the session has finished.
    pub fn is_done(&self) -> (r: bool)
        ensures
            r == self@.done,
    {
        self.done
    }

    /// Takes how the command that runs now ended, and says what comes next.
    pub fn advance(&mut self, o: Outcome) -> (r: Action)
        requires
            old(self).well_formed(),
            !old(self)@.done,
        ensures
            final(self).well_formed(),
            r@ == next_action(old(self)@, o),
            final(self)@ == next_state(old(self)@, o),
    {
        let ghost s0 = self@;
        let category = self.steps[self.at].category;
        assert(self.steps@[self.at as int]@.category == category);
        let v = classify(category, o);
        match v {
            Err(e) => {
                self.done = true;
                assert(self@ =~= next_state(s0, o));
                Action::Finish(Err(e))
            },
            Ok(out) => {
                if self.at < self.steps.len() - 1 {
                    self.at = self.at + 1;
                    let args = clone_args(&self.steps[self.at].args);
                    assert(self@ =~= next_state(s0, o));
                    Action::Run(args)
                } else if self.listing {
                    self.done = true;
                    let networks = parse_listing(out.as_str());
                    assert(networks@.map_values(|n: Network| n@) =~= listing_of(out@));
                    assert(self@ =~= next_state(s0, o));
                    Action::Finish(Ok(Reply::Networks(networks)))
                } else {
                    self.done = true;
                    assert(self@ =~= next_state(s0, o));
                    Action::Finish(Ok(Reply::Unit))
                }
            },
        }
    }
}

/// A failed command ends its session with that failure: no later command of
/// the operation is run.
pub proof fn lemma_failure_ends_session(s: SessionView, o: Outcome)
    requires
        0 <= s.at < s.steps.len(),
        verdict(s.steps[s.at].category, o) is Err,
    ensures
        next_action(s, o) == ActionView::Finish(
            Err(verdict(s.steps[s.at].category, o)->Err_0),
        ),
        next_state(s, o).done,
{
}

} // verus!
