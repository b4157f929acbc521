# ferrum (verified core)

The verified logic of the Ferrum 3D engine and of its Raspberry Pi sensor demo,
written in Verus.

## Layout

- `src/` — the library, verified by Verus:
  - `store.rs`: the model registry (`ModelStore`): fresh ids, `Burning` → `Molten`
    on delivery, loaded listings and in-place edits of light models.
  - `mic.rs`: ADS1115 register words, conversion decoding and the trimmed burst
    amplitude (sorting proved, order independence and spike trimming proved).
  - `wind.rs`: winner-take-all blow detection and the silence hold of the wind.
  - `link.rs`: supervision of the Pi link and the sensor socket decisions.
  - `camera.rs`: JPEG decoding (through the `image` crate) and the search of the
    brightest pixel away from the borders.
  - `sky.rs`: cubemap face size, compute dispatch size and row pitch.
  - `surface.rs`, `keys.rs`, `config.rs`: surface state and frame outcomes,
    camera keys, window and application configuration.
  - `assets.rs`: resource file-name candidates and their probing order, sky
    format by extension and the triangle incidence used to average tangents.
  - `deploy.rs`: the decisions of deploying the firmware to the Pi (scp + ssh).
  - `scene.rs`: registration of the demo scene.
- `tests/` — executable tests of the library.
- `app/` — the Raspberry Pi firmware (I2C, camera capture, WebSocket) and the
  floating-point glue of the demo update, around the library.
