# boulder_drivers

Drivers of the boulder kernel, written in Verus: the census of PCI devices, the
network that decides which driver a display gets, firmware displays, the Hermes
transport to NVIDIA system processors, and the bring-up of xHCI controllers.

`src/` is the verified library. What it decides depends on hardware only through
traits (register windows, frame pools, remapping units, codecs, clocks). A trait whose
methods change its implementor has a `history`: each method adds to it what it was asked
and what it answered. A transcript is the history of one such implementor, or it holds
the histories of several, and then `follows` says that each grew by what the transcript
holds of it and by nothing else. Only the module of a transcript writes it, one entry with
each call, so the order of its entries is the order of the calls. Implementors that only
answer (personalities and firmware authorities, which are shared) are tied by what their
own contracts allow them to answer.

A contract says what a function returns for each transcript: the functions whose
names end in `_run` read a transcript from a place on, and `trace::continues` says
that one transcript extends another. Properties that span functions are the public
proof functions whose names begin with `law_`.

- `device_census`, `pci`, `seal`: measuring functions, claims on them, sealed roots
- `drivernet`: configuration readers, fingerprints, the compatibility oracle, dispatch,
  the parties of a transaction, brokers, telemetry
- `firmware_display`, `gpu_portability`, `gpu_abi`: firmware surfaces and manifests
- `hermes_gsp`, `hermes_trace`, `hermes_transport`: a transport and its transcript
- `hermes_services`, `hermes_platform`, `hermes_dma`, `hermes_abi`: what it runs on
- `xhci`, `xhci_protocol`, `xhci_ports`, `xhci_dma`, `xhci_iommu`
- `net`, `mmio`, `status`, `trace`

`tests/` runs the library against simulated hardware. `app/` holds the hardware
side: volatile memory, ports, C callbacks, the console, the takeover machine, device
isolation and the published state.
