# passkeys

A FIDO2 authenticator library whose logic is verified with Verus.

- `src/ctap_hid.rs`: CTAP HID packets, framing and reassembly.
- `src/cbor.rs`: CBOR data items, read and written with `ciborium`.
- `src/backend.rs`: credential backends. `LocalEd25519Backend` holds one Ed25519
  key per credential; `FrostBackend` shares each key among three participants,
  two of whom sign.
- `src/authenticator.rs`: the credential and assertion service.
- `src/linux_uhid.rs`: the CTAP2 authenticator over Linux UHID, as a state
  machine from what the host sends to what to answer or to ask the user.
  `src/linux_uhid/session.rs` says after each step what to do next.
- `app/`: the device file, the console, and the asynchronous MPC interfaces.

What holds of several operations together is stated as proof functions whose
names start with `law_`.

## Trying it

Ensure `/dev/uhid` exists and the current user can open it. Credentials are
stored only in memory, so keep the process running between registration and
authentication. With [webauthn.io](https://webauthn.io) these settings work:
algorithm Ed25519 only, cross-platform attachment, user verification and
discoverable credential discouraged, no attestation.
