# dloor

A terminal downloader for media that you are authorized to save, driven by
yt-dlp, ffmpeg and (for cloud destinations) rclone. `dloor` is the
interactive terminal frontend; `dloor-cli` (or `dloor cli ...`) downloads the
URLs given on its command line and prints the saved paths or one JSON report.

## Layout

- `src/` is the verified library; Verus checks every function there against its
  contract:
  - `platform`, `cli`: URL classification, the command-line parser, option
    resolution and the JSON report;
  - `text`, `error`: character-sequence helpers and the error type;
  - `config`, `transcode`, `args`: settings, the bandwidth limit, the
    `[transcode]` preset and the complete yt-dlp and ffmpeg command lines;
  - `download`, `progress`, `job`: the records yt-dlp prints, progress that
    never goes back, and how a yt-dlp run ends;
  - `queue`, `history`: the download queue (first in, first out, one job
    running) and the bounded download history;
  - `diagnostics`, `freshness`, `deps`, `clock`: error classification, the
    age of the installed yt-dlp, missing tools, update advice, and the
    current time;
  - `metadata`: the preview of a URL;
  - `tui`: every screen's key handling and the navigation between screens.
- `tests/` runs the library on concrete values.
- `app/` is the program around it: processes, files, the terminal and the
  clipboard. It holds no decisions of its own; it hands the library what it
  read and carries out what the library returns.
