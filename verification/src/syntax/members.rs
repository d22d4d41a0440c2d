use vstd::prelude::*;
use vstd::string::StringSliceAdditionalSpecFns;

verus! {

/// Where a scan of a JSON text stands: how deep in objects and arrays,
/// whether inside a string, whether right after a backslash in a string, and
/// how many members of the outermost object have been met.
pub struct Scan {
    pub depth: nat,
    pub in_string: bool,
    pub escaped: bool,
    pub members: nat,
}

/// The scan after one more byte. Inside a string only a quote that no
/// backslash escapes matters. Outside, brackets and braces change the depth,
/// and a colon right inside the outermost object marks a member.
pub open spec fn spec_scan_step(s: Scan, byte: u8) -> Scan {
    if s.in_string {
        if s.escaped {
            Scan { escaped: false, ..s }
        } else if byte == 0x5C {
            Scan { escaped: true, ..s }
        } else if byte == 0x22 {
            Scan { in_string: false, ..s }
        } else {
            s
        }
    } else if byte == 0x22 {
        Scan { in_string: true, ..s }
    } else if byte == 0x7B || byte == 0x5B {
        Scan { depth: s.depth + 1, ..s }
    } else if byte == 0x7D || byte == 0x5D {
        Scan { depth: if s.depth > 0 {
            (s.depth - 1) as nat
        } else {
            0
        }, ..s }
    } else if byte == 0x3A && s.depth == 1 {
        Scan { members: s.members + 1, ..s }
    } else {
        s
    }
}

/// The scan after the first `n` bytes.
pub open spec fn spec_scan(bytes: Seq<u8>, n: int) -> Scan
    decreases n,
{
    if n <= 0 {
        Scan { depth: 0, in_string: false, escaped: false, members: 0 }
    } else {
        spec_scan_step(spec_scan(bytes, n - 1), bytes[n - 1])
    }
}

/// How many members the outermost object of a JSON text is written with,
/// equal names counted as often as they are written.
pub open spec fn spec_written_members(bytes: Seq<u8>) -> nat {
    spec_scan(bytes, bytes.len() as int).members
}

/// Counts the members that the outermost object of a JSON text is written with.
pub fn written_members(text: &str) -> (n: usize)
    ensures
        n == spec_written_members(text.spec_bytes()),
{
    let bytes = text.as_bytes();
    let mut depth: usize = 0;
    let mut in_string = false;
    let mut escaped = false;
    let mut members: usize = 0;
    let mut i: usize = 0;
    while i < bytes.len()
        invariant
            i <= bytes@.len(),
            depth <= i,
            members <= i,
            spec_scan(bytes@, i as int) == (Scan { depth: depth as nat, in_string, escaped, members: members as nat }),
        decreases bytes@.len() - i,
    {
        let byte = bytes[i];
        if in_string {
            if escaped {
                escaped = false;
            } else if byte == 0x5C {
                escaped = true;
            } else if byte == 0x22 {
                in_string = false;
            }
        } else if byte == 0x22 {
            in_string = true;
        } else if byte == 0x7B || byte == 0x5B {
            depth += 1;
        } else if byte == 0x7D || byte == 0x5D {
            if depth > 0 {
                depth -= 1;
            }
        } else if byte == 0x3A && depth == 1 {
            members += 1;
        }
        i += 1;
    }
    members
}

} // verus!
