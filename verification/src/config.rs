//! The configuration: where parameter messages go, where the feed listens,
//! and the label under which each sensor role is found in the feed.

use crate::reading::{
    all_digits, digits_value, is_digit, is_digit_char, lemma_digits_value_grows,
    lemma_digits_value_push,
};
use crate::text::chars_of;
use vstd::prelude::*;

verus! {

/// The configuration of the bridge.
#[derive(Clone, Debug)]
pub struct Config {
    /// The address that parameter messages are sent to.
    pub osc_ip: String,
    /// The port that parameter messages are sent to.
    pub osc_port: u16,
    /// The local port on which the feed is served.
    pub json_port: u16,
    pub cpu_temp_name: String,
    pub cpu_usage_name: String,
    pub gpu_temp_name: String,
    pub gpu_usage_name: String,
    pub gpu_mem_used_name: String,
    pub gpu_mem_total_name: String,
    pub wifi_up_name: String,
    pub wifi_down_name: String,
}

impl Default for Config {
    fn default() -> (c: Config)
        ensures
            c.osc_ip@ == "127.0.0.1"@,
            c.osc_port == 9000,
            c.json_port == 8085,
            c.cpu_temp_name@ == "Core (Tctl/Tdie)"@,
            c.cpu_usage_name@ == "CPU Total"@,
            c.gpu_temp_name@ == "GPU Core_Temp-1  ( ! )"@,
            c.gpu_usage_name@ == "GPU Core_Used-1  ( ! )"@,
            c.gpu_mem_used_name@ == "GPU Memory_Used-1  ( ! )"@,
            c.gpu_mem_total_name@ == "GPU Memory_Total-1  ( ! )"@,
            c.wifi_up_name@ == "Upload Speed"@,
            c.wifi_down_name@ == "Download Speed"@,
    {
        Config {
            osc_ip: "127.0.0.1".to_owned(),
            osc_port: 9000,
            json_port: 8085,
            cpu_temp_name: "Core (Tctl/Tdie)".to_owned(),
            cpu_usage_name: "CPU Total".to_owned(),
            gpu_temp_name: "GPU Core_Temp-1  ( ! )".to_owned(),
            gpu_usage_name: "GPU Core_Used-1  ( ! )".to_owned(),
            gpu_mem_used_name: "GPU Memory_Used-1  ( ! )".to_owned(),
            gpu_mem_total_name: "GPU Memory_Total-1  ( ! )".to_owned(),
            wifi_up_name: "Upload Speed".to_owned(),
            wifi_down_name: "Download Speed".to_owned(),
        }
    }
}

/// The port number that a text writes: an optional `+` and then decimal
/// digits, at least one, that write a number of at most 65535.
pub open spec fn port_of(text: Seq<char>) -> Option<u16> {
    let start: int = if text.len() > 0 && text[0] == '+' { 1 } else { 0 };
    let digits = text.subrange(start, text.len() as int);
    if digits.len() > 0 && all_digits(digits) && digits_value(digits) <= u16::MAX {
        Some(digits_value(digits) as u16)
    } else {
        None
    }
}

/// Reads a port number.
pub fn parse_port(text: &str) -> (port: Option<u16>)
    ensures
        port == port_of(text@),
{
    let s: Vec<char> = chars_of(text);
    let n: usize = s.len();
    let start: usize = if n > 0 && s[0] == '+' { 1 } else { 0 };
    if start == n {
        return None;
    }
    let ghost digits = s@.subrange(start as int, n as int);
    let mut value: u32 = 0;
    let mut i: usize = start;
    proof {
        assert(digits.subrange(0, 0) =~= Seq::<char>::empty());
    }
    while i < n
        invariant
            start <= i <= n == s.len(),
            start < n,
            s@ == text@,
            start == if s@.len() > 0 && s@[0] == '+' { 1int } else { 0int },
            digits == s@.subrange(start as int, n as int),
            forall|j: int| 0 <= j < i - start ==> is_digit(#[trigger] digits[j]),
            value == digits_value(digits.subrange(0, i - start)),
            value <= u16::MAX,
        decreases n - i,
    {
        if !is_digit_char(s[i]) {
            assert(digits[i - start] == s@[i as int]);
            assert(!is_digit(digits[i - start]));

            return None;
        }
        proof {
            lemma_digits_value_push(digits.subrange(0, i - start), s@[i as int]);
            assert(digits.subrange(0, i - start + 1) =~= digits.subrange(0, i - start).push(
                s@[i as int],
            ));
            lemma_digits_value_grows(digits, i - start + 1);
        }
        value = value * 10 + (s[i] as u32 - 48);
        if value > 65535 {
            return None;
        }
        i += 1;
    }
    proof {
        assert(digits.subrange(0, n - start) =~= digits);
    }
    Some(value as u16)
}

impl Config {
    /// Commits the endpoints as they were typed in: where both port texts
    /// write a port number, the address and the two ports are taken over;
    /// where either does not, nothing changes. The labels stay as they are.
    pub fn set_endpoints(&mut self, osc_ip: &str, osc_port: &str, json_port: &str) -> (done: bool)
        ensures
            done == (port_of(osc_port@) is Some && port_of(json_port@) is Some),
            done ==> final(self).osc_ip@ == osc_ip@ && final(self).osc_port == port_of(
                osc_port@,
            )->0 && final(self).json_port == port_of(json_port@)->0,
            !done ==> final(self).osc_ip == old(self).osc_ip && final(self).osc_port == old(
                self,
            ).osc_port && final(self).json_port == old(self).json_port,
            final(self).cpu_temp_name == old(self).cpu_temp_name,
            final(self).cpu_usage_name == old(self).cpu_usage_name,
            final(self).gpu_temp_name == old(self).gpu_temp_name,
            final(self).gpu_usage_name == old(self).gpu_usage_name,
            final(self).gpu_mem_used_name == old(self).gpu_mem_used_name,
            final(self).gpu_mem_total_name == old(self).gpu_mem_total_name,
            final(self).wifi_up_name == old(self).wifi_up_name,
            final(self).wifi_down_name == old(self).wifi_down_name,
    {
        match (parse_port(osc_port), parse_port(json_port)) {
            (Some(port), Some(feed)) => {
                self.osc_ip = osc_ip.to_owned();
                self.osc_port = port;
                self.json_port = feed;
                true
            },
            _ => false,
        }
    }
}

} // verus!
