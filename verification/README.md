# traceroute

A UDP/ICMP traceroute, with its packet handling verified in Verus.

- `src/parser.rs`: views of IPv4, ICMP and UDP headers over a byte buffer; each
  accessor states the field it reads and the bytes it needs.
- `src/report.rs`: the summary of a captured IPv4 packet carrying ICMP.
- `src/traceroute.rs`: the probes a trace sends, the reading of responses, and
  the state of the receiving loop (`TraceRun`), stepped by timeouts and packets.
- `src/addr.rs`: IP addresses.
- `app/`: the programs (sockets, threads, printing), which hand packets to the
  library and act on what it decides.
