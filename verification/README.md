# sync_image

A Windows-to-Linux image handoff: a desktop client captures the clipboard
image (or a copied PNG/JPEG file), normalises it to PNG and uploads it over
SSH/SFTP to shared storage; a stdio MCP server on the Linux side picks the
newest upload of a user and returns it as image content.

Storage contract: `<shared_image_root>/<user_name>/<YYYYMMDD_HHMMSS_mmm>.png`,
named by the UTC upload time, so that names sort by recency.

## Layout

- `src/` is the verified library (Verus). It holds the logic with its
  contracts and laws:
  - `hotkey`: parsing and rendering of hotkeys such as `Ctrl+Alt+U`;
  - `paths`: user-name validation and the per-user upload directory;
  - `config`: client configuration and its validation;
  - `image_files`: timestamped upload names, their ordering, and the choice
    of the newest upload;
  - `upload`: host-key trust on first use, authentication steps, and
    connection failures;
  - `interaction`, `client`: requests to the user and their answers;
  - `runtime`: the start/stop state of the background client;
  - `image_input`: accepted file types and PNG encoding of clipboard pixels;
  - `mcp`: the reply plan of the MCP server;
  - `desktop`: the data exchanged with a desktop front end;
  - `text`: character-level helpers the others share.
- `app/` is the ordinary Rust around it: the command line, SSH/SFTP, files,
  the clipboard, notifications, the Windows hotkey thread and the stdio loop.
  It builds one program: `sync-image-client [--config PATH] run|check`, and
  the MCP server, reached as `sync-image-client mcp` or by installing the
  program under the name `sync-image-mcp`.
- `tests/` runs the library on concrete values.
