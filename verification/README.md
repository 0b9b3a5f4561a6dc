# usb_transfer

Transfer bookkeeping for USB host endpoints, verified with Verus.

The library turns transfer requests into xHCI transfer request blocks (TRBs), keeps
track of the requests in flight on an endpoint, and turns the controller's events
into completions. It performs no I/O: the caller puts TRBs on a ring, maps buffers,
rings doorbells, and hands back addresses, events and replies as plain values.

| Module | What it holds |
| --- | --- |
| `usb` | directions, endpoint types and control requests |
| `endpoint` | endpoint addresses, transfer requests and completions |
| `error` | why a transfer failed |
| `completion` | completion codes and transfer events |
| `transfer` | a transfer from its request to its completion |
| `trb` | the words of each kind of TRB |
| `submit` | from a transfer to its TRBs |
| `td` | from the last event of a request to its end |
| `reclaim` | walking a request for the event that ends it |
| `state` | the state of an endpoint as a mathematical value |
| `xhci_endpoint` | the endpoint itself |
| `recovery` | stopping, resuming and resetting |
| `laws` | what holds across the operations of an endpoint |
| `handle` | who may submit, and what giving up a wait cancels |
| `video` | which bytes of a transfer are video |
| `actuator` | wire frames for Feetech actuators |

Each executable function states its effect on the model in `state` exactly, so the
laws are statements about that model alone.

The field layout of TRBs comes from the `xhci` crate. The functions in `trb` and
`completion` that call it are marked `external_body`; each says in its comment which
call it makes and what it takes that call to do.

`app/` holds the glue to a platform: shared handles with locks and futures, DMA
mapping, rings and doorbells behind traits, and the floating-point kinematics of a
three-wheel base.
