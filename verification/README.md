# AI Firewall

A firewall that counts the traffic of each source address at the network
interface, judges every source once a second, and blocks the anomalous ones for
sixty seconds. A terminal shows the traffic and the blocks, and lets the user
block and unblock addresses.

`src/` is the decision logic, verified with Verus:

| Module       | What it decides                                                   |
|--------------|-------------------------------------------------------------------|
| `packet`     | what the headers of a frame say                                   |
| `metrics`    | how packets are counted                                           |
| `filter`     | which frames are dropped, and what is written to the counters     |
| `model`      | which traffic is anomalous, by its distances from the clusters    |
| `request`    | how the block list is changed, and how that is reported           |
| `sweep`      | what is done with the counters each second                        |
| `controller` | which blocks are over, what is on display, what a reply changes   |
| `input`      | what the user's keys do                                           |
| `dashboard`  | what the terminal's panels read                                   |
| `attach`     | in which mode the program is attached                             |
| `events`     | what a packet record says, which sources have sent too many       |
| `alert`      | what a record of the alert file holds                             |
| `text`, `units` | numbers, addresses, rates and amounts as text                  |
| `clock`      | time stamps                                                       |
| `headers`    | constants of the wire formats                                     |

Functions whose names begin with `law_` state what holds of the whole, such as
that the controller and the kernel go on to agree on what is blocked, as long as
they agreed at first and only the controller changes the block list.

`app/` performs the input and output: the kernel program, the control program,
the terminal, and the training of the model. It computes the features of
traffic in floating point and hands their distances to the library as bit
patterns.

`tests/` runs the library on concrete values.
