# mail_types

Core types for creating and encoding mails, verified with Verus.

- `codec`: a byte level mail encoder (line lengths, folding points, 8-bit
  support) and the `MailEncodable` trait.
- `char_validators`, `components`, `headers`: character classes of the mail
  grammars, header components (emails, mailboxes, message ids, phrases,
  texts, dates, media types, content ids, dispositions) and how they are
  written, the header map and header encoding.
- `file_buffer`, `encodings`, `body`: buffers with media type and file
  metadata and their content transfer encoding (7bit, 8bit, binary,
  quoted-printable, base64).
- `resource`, `fs_loader`: resources and the state machine that loads and
  encodes them; the decisions of a file system resource loader.
- `mail`, `mime`, `composition`, `id_gen`: the mail tree, its builders and
  header checks, multipart media types with random boundaries, composing
  mails from template output, and message/content id generation.

`src/` is the verified library. `app/` holds the parts that do I/O or share
state between threads (reading files, thread pool, atomics, locks), built on
top of the library.
