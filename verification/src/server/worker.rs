use vstd::prelude::*;

use crate::http::http_status::{is_date_time_text, not_found, no_line_break, not_found_body, response_text, HttpStatus};
use crate::server::config::{route_rules, ConfigView, RelayConnectionInfo, ServerConfig};
use crate::server::http_request::http_request_info;

verus! {

/// What the server does with a request.
pub enum WorkerAction {
    /// Answer the client with this text.
    Respond(String),
    /// Relay the request to this target.
    Relay(RelayConnectionInfo),
}

/// Handles the requests of clients under a configuration.
pub struct Worker {
    config: ServerConfig,
}

impl View for Worker {
    type V = ConfigView;

    closed spec fn view(&self) -> ConfigView {
        self.config@
    }
}

impl Worker {
    pub fn new(config: ServerConfig) -> (r: Self)
        ensures
            r@ == config@,
    {
        Worker { config }
    }

    /// The number of relayed requests counted so far.
    pub fn count(&self) -> (r: i32)
        ensures
            r == self@.count,
    {
        self.config.get_count_value()
    }

    /// Decides what to do with `request`. A request that no rule relays is
    /// answered `404 Not Found` and leaves the configuration as it was; a
    /// relayed one is counted, as long as the count is below `i32::MAX`.
    pub fn handle_request(&mut self, request: &http_request_info) -> (r: WorkerAction)
        ensures
            match route_rules(old(self)@.rules, request@) {
                None => {
                    &&& final(self)@ == old(self)@
                    &&& r matches WorkerAction::Respond(text) && exists|date: Seq<char>|
                        is_date_time_text(date) && no_line_break(date)
                            && text@ == response_text(HttpStatus::NotFound, date, not_found_body())
                },
                Some(relay) => {
                    &&& r matches WorkerAction::Relay(target) && target@ == relay
                    &&& final(self)@ == (ConfigView {
                        count: if old(self)@.count < i32::MAX {
                            (old(self)@.count + 1) as i32
                        } else {
                            old(self)@.count
                        },
                        ..old(self)@
                    })
                },
            },
    {
        let relay = self.config.route(request);
        match relay {
            None => WorkerAction::Respond(not_found()),
            Some(relay) => {
                if self.config.get_count_value() < i32::MAX {
                    self.config.add_count();
                }
                WorkerAction::Relay(relay)
            },
        }
    }
}

} // verus!
