//! The start-up sequence of the appliance's services.

use crate::command::{owned, owned_all};
use vstd::prelude::*;

verus! {

broadcast use vstd::string::group_string_axioms;

/// One step of the start-up sequence.
#[derive(Debug, Clone)]
pub enum ServiceStep {
    /// Run a command to completion; failing to start it aborts start-up.
    Run { program: String, args: Vec<String> },
    /// Start a service in the background, then light the LED on a GPIO pin.
    Launch { program: String, args: Vec<String>, led_pin: u8 },
    /// Wait a number of seconds.
    Pause { seconds: u64 },
}

/// The mathematical content of a [`ServiceStep`].
#[verifier::ext_equal]
pub enum ServiceStepView {
    Run { program: Seq<char>, args: Seq<Seq<char>> },
    Launch { program: Seq<char>, args: Seq<Seq<char>>, led_pin: u8 },
    Pause { seconds: u64 },
}

impl View for ServiceStep {
    type V = ServiceStepView;

    open spec fn view(&self) -> ServiceStepView {
        match self {
            ServiceStep::Run { program, args } => ServiceStepView::Run {
                program: program@,
                args: args.deep_view(),
            },
            ServiceStep::Launch { program, args, led_pin } => ServiceStepView::Launch {
                program: program@,
                args: args.deep_view(),
                led_pin: *led_pin,
            },
            ServiceStep::Pause { seconds } => ServiceStepView::Pause { seconds: *seconds },
        }
    }
}

/// The start-up sequence: unblock WiFi, give `wlan0` the gateway address
/// and promiscuous mode, restart hostapd and dnsmasq, then launch the
/// firewall (LED on pin 17), wait three seconds, and launch the packet
/// analyzer (pin 22), the web backend (pin 23) and the web frontend
/// (pin 27).
pub open spec fn service_steps() -> Seq<ServiceStepView> {
    seq![
        ServiceStepView::Run { program: "rfkill"@, args: seq!["unblock"@, "wifi"@] },
        ServiceStepView::Run {
            program: "ip"@,
            args: seq!["addr"@, "add"@, "192.168.1.1/24"@, "dev"@, "wlan0"@],
        },
        ServiceStepView::Run {
            program: "ip"@,
            args: seq!["link"@, "set"@, "wlan0"@, "promisc"@, "on"@],
        },
        ServiceStepView::Run { program: "systemctl"@, args: seq!["restart"@, "hostapd"@] },
        ServiceStepView::Run { program: "systemctl"@, args: seq!["restart"@, "dnsmasq"@] },
        ServiceStepView::Launch {
            program: "/usr/local/bin/nethound/firewall"@,
            args: seq![],
            led_pin: 17,
        },
        ServiceStepView::Pause { seconds: 3 },
        ServiceStepView::Launch {
            program: "/usr/local/bin/nethound/PacketAnalyzer"@,
            args: seq![],
            led_pin: 22,
        },
        ServiceStepView::Launch {
            program: "node"@,
            args: seq!["/usr/local/bin/nethound/backend/dist/index.js"@],
            led_pin: 23,
        },
        ServiceStepView::Launch {
            program: "serve"@,
            args: seq!["-s"@, "/usr/local/bin/nethound/frontend/dist"@, "-l"@, "8080"@],
            led_pin: 27,
        },
    ]
}

fn run_step(program: &str, args: &[&str]) -> (s: ServiceStep)
    ensures
        s@ == (ServiceStepView::Run { program: program@, args: args@.map_values(|a: &str| a@) }),
{
    ServiceStep::Run { program: owned(program), args: owned_all(args) }
}

fn launch_step(program: &str, args: &[&str], led_pin: u8) -> (s: ServiceStep)
    ensures
        s@ == (ServiceStepView::Launch {
            program: program@,
            args: args@.map_values(|a: &str| a@),
            led_pin,
        }),
{
    ServiceStep::Launch { program: owned(program), args: owned_all(args), led_pin }
}

/// The start-up sequence of [`service_steps`], for the launcher to carry
/// out in order.
pub fn service_plan() -> (steps: Vec<ServiceStep>)
    ensures
        steps@.map_values(|s: ServiceStep| s@) == service_steps(),
{
    let no_args: [&str; 0] = [];
    let mut steps: Vec<ServiceStep> = Vec::new();
    steps.push(run_step("rfkill", &["unblock", "wifi"]));
    steps.push(run_step("ip", &["addr", "add", "192.168.1.1/24", "dev", "wlan0"]));
    steps.push(run_step("ip", &["link", "set", "wlan0", "promisc", "on"]));
    steps.push(run_step("systemctl", &["restart", "hostapd"]));
    steps.push(run_step("systemctl", &["restart", "dnsmasq"]));
    steps.push(launch_step("/usr/local/bin/nethound/firewall", &no_args, 17));
    steps.push(ServiceStep::Pause { seconds: 3 });
    steps.push(launch_step("/usr/local/bin/nethound/PacketAnalyzer", &no_args, 22));
    steps.push(launch_step("node", &["/usr/local/bin/nethound/backend/dist/index.js"], 23));
    steps.push(
        launch_step("serve", &["-s", "/usr/local/bin/nethound/frontend/dist", "-l", "8080"], 27),
    );
    assert(steps@.map_values(|s: ServiceStep| s@) =~~= service_steps());
    steps
}

/// The GPIO pins of the status LEDs, in launch order.
pub fn led_pins(steps: &Vec<ServiceStep>) -> (pins: Vec<u8>)
    ensures
        pins@ == steps@.map_values(|s: ServiceStep| s@).filter(
            |v: ServiceStepView| v is Launch,
        ).map_values(|v: ServiceStepView| v->led_pin),
{
    let mut pins: Vec<u8> = Vec::new();
    let ghost views = steps@.map_values(|s: ServiceStep| s@);
    let ghost pred = |v: ServiceStepView| v is Launch;
    let ghost pin_of = |v: ServiceStepView| v->led_pin;
    let mut i: usize = 0;
    while i < steps.len()
        invariant
            i <= steps@.len(),
            views == steps@.map_values(|s: ServiceStep| s@),
            pred == (|v: ServiceStepView| v is Launch),
            pin_of == (|v: ServiceStepView| v->led_pin),
            pins@ == views.take(i as int).filter(pred).map_values(pin_of),
        decreases steps@.len() - i,
    {
        proof {
            reveal_with_fuel(Seq::<_>::filter, 1);
            assert(views.take(i + 1).drop_last() =~= views.take(i as int));
            assert(views.take(i + 1).last() == steps@[i as int]@);
        }
        match &steps[i] {
            ServiceStep::Launch { led_pin, .. } => {
                let ghost before = pins@;
                pins.push(*led_pin);
                assert(pins@ =~= views.take(i + 1).filter(pred).map_values(pin_of));
            },
            _ => {
                assert(pins@ =~= views.take(i + 1).filter(pred).map_values(pin_of));
            },
        }
        i = i + 1;
    }
    assert(views.take(steps@.len() as int) =~= views);
    pins
}

} // verus!
