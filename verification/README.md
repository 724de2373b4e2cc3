# pico_autofill

Firmware logic for a Raspberry Pi Pico that types a saved value as a USB
keyboard when its BOOTSEL button is clicked once, and exposes the value as
`AUTOFILL.TXT` on a small FAT12 USB drive after a triple click.

`src/` is the library, verified with Verus:

- `text.rs` – the value: at most fifty printable ASCII bytes, and what a
  file's bytes denote (`text_of_file`).
- `click.rs` – debounced click counting as a state machine (`spec_update`).
- `keyboard.rs` – the US layout table and the reports that type a value.
- `persist.rs` – the flash record with its CRC-32, and decoding of both
  record versions.
- `fat.rs` – formatting the 32 KiB volume (`disk_image`) and reading the
  value back from it (`spec_extract_text`); FAT12 entry packing.
- `msc.rs` – bulk-only transport and SCSI decisions: command blocks, sense
  and inquiry data, block ranges, class requests, the data phase of each
  command (`spec_begin_command`), and status wrappers.
- `medium.rs` – routing click gestures, inserting the medium, committing an
  edited volume to flash.
- `bytes.rs`, `endian.rs` – byte copying and integer fields.

Each round trip that the device relies on is a proof function:
`persist::lemma_decode_encode`, `fat::lemma_extract_format`,
`fat::lemma_fat12_read_after_write`, and the typing and click lemmas.

`app/` is the embassy firmware around the library: the USB stack, the flash,
the button, and the tasks that move bytes as the library decides.
