# quantcore

Quantized weights and paged key/value caches for language models: which bytes stand where, which
tensors fit each other, and which kernel is launched with what. `src/` is written in Verus; the
contract of each function is proved.

- `cache_engine`, `paging`, `kvarn`, `turboquant`: paged caches, their storage, their records and
  rows, and where a token is written and read.
- `gguf`, `gptq`, `hqz4`: quantized weights, their headers and packed codes, how they are cut into
  shards, and how they are routed to kernels.
- `launch`, `hqz4::kernels`: what a kernel launch is checked for and launched with.
- `topology`, `routing`, `speculative`, `attention`, `server`: placement of layers, experts of a
  batch, drafting of tokens, routes of attention, and settings.
- `tensor`, `dtype`, `float_bits`, `bytes`, `text`, `arith`, `flags`, `isq`: what the others share.
- `little_endian`, `regexes`: calls into `byteorder` and `regex`.

Floating-point numbers are carried as bit patterns. Arithmetic on them, devices, files and the
environment are in `app/`, which hands plain values to the library and carries out its plans.
