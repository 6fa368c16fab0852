# obmc

Order By Media Creation: prefixes media file names with their creation date,
in the sortable layout `YYYY_MM_DD HH.MM II.MMAM original_name.ext`.

The library in `src/` is written in Verus and verified:

- `stamp_converter` parses creation stamps (`DD/MM/YYYY [HH:MM] [II:MM] AM|PM`)
  and flips them into the sortable layout;
- `processing` decides renames, writes report lines, formats dual stamps with
  `chrono` and resolves which date a file gets;
- `media` reads the creation date recorded in a media file's bytes with
  nom-exif;
- `stamp_laws` proves that any stamp of the dual layout with zero-padded
  digit fields parses and flips, and that flipped stamps sort chronologically
  under any separators; that every stamp the program writes for a year from
  0 to 9999 is such a stamp, and that stamps of other years are refused; and
  that the epoch fallback parses;
- `folders` builds the folder tree of media files (JPEG, PNG, HEIC, AVIF,
  TIFF, CR3, RAF, IIQ, MP4, MOV, MKV, AVI, WebM, 3GP) from a directory
  listing;
- `text` holds the character-level string helpers.

`app/` is the command-line program: argument parsing (clap), directory
listing (serial or with rayon), reading files' bytes and filesystem times,
converting recorded times to the local time zone, and renaming files.
