# speedtest

A LAN link-quality tester built around iperf3: a web interface starts
iperf3 servers and client runs, keeps a history of results, writes HTML
reports and can switch the wireless interface off during a test.

The crate is split in two:

- `src/` is the library, verified with Verus. It holds the decisions of the
  program as functions on plain values with contracts: the iperf3 command
  lines and the reading of their failures, the test history (newest first,
  found and deleted by identifier), report file names, listing order,
  escaping and the transcript table, byte-count formatting (exactly as the
  floating-point formula prints it), the iperf3 lookup and the wireless
  status exchange as small state machines, and the choices the web API
  makes on each request. Laws that relate several operations are public
  proof functions (`law_*`).
- `app/` is the program around it: command line, web server, processes,
  files, and the parts that compute on floating-point rates (summaries,
  statistics, the report's charts and cards).

`tests/` runs the library on concrete values.
