# pp

The library of pp, a private platform that hands out virtual machines for
compatibility tests: environments of VMs of many operating systems, reached
over SSH or a lightweight remote-execution daemon.

- `src/` is the verified library:
  - `def`: addresses, kinds of VM, environments and VMs as clients see them;
  - `text`: decimal and hexadecimal text, searching, trimming, joining;
  - `nft`: the nftables commands of the NAT table and the queue of changes;
  - `vm`: the Qemu, ZFS and Bhyve commands that start and free a VM;
  - `image`: which image files are offered, under which OS name;
  - `client`: requests, their checks, and how the VMs are reached;
  - `rexec`: replies, framing and the course of a file transfer.
- `app/` runs it: the daemons, the processes, the files and the sockets.
- `tests/` exercises the library on concrete values.
